//! How the chart groups of a model line up with the groups of the loaded
//! XML: loaded groups keep their places, groups added at run time go before
//! the next loaded group that follows them in the model.
use vstd::prelude::*;
use crate::chart_model::{ChartGroupModel, ChartModel};
use crate::errors::{OmError, OmErrorCode};
use crate::package_xml::{error_view, ErrorView};
use crate::xml::bytes_eq;

verus! {

/// One group of the merged sequence: a group of the loaded XML, by its
/// loaded position, or a group added at run time, by its model position.
#[derive(Clone, Copy, Debug, PartialEq, Eq, Structural)]
pub enum LoadedChartGroupSequenceToken {
    Original(usize),
    Added(usize),
}

/// The merged sequence of groups, where each model group lands in it, and
/// which loaded groups the model still has.
pub struct LoadedChartGroupSequence {
    pub tokens: Vec<LoadedChartGroupSequenceToken>,
    pub model_to_xml: Vec<usize>,
    pub surviving_original_groups: Vec<bool>,
}

/// The number of groups added at run time.
pub open spec fn added_count(groups: Seq<ChartGroupModel>) -> nat
    decreases groups.len(),
{
    if groups.len() == 0 {
        0
    } else {
        added_count(groups.drop_last()) + if groups.last().loaded_index is None { 1nat } else { 0nat }
    }
}

/// The loaded position of the first loaded group from model position `i` on.
pub open spec fn next_loaded_from(groups: Seq<ChartGroupModel>, i: int) -> Option<usize>
    decreases groups.len() - i,
{
    if i < 0 || i >= groups.len() {
        None
    } else {
        match groups[i].loaded_index {
            Some(l) => Some(l),
            None => next_loaded_from(groups, i + 1),
        }
    }
}

/// Where a group added at model position `i` is inserted: before the next
/// loaded group that follows it, else after all `original` loaded groups.
pub open spec fn insertion_index(groups: Seq<ChartGroupModel>, i: int, original: nat) -> nat {
    match next_loaded_from(groups, i + 1) {
        Some(l) => l as nat,
        None => original,
    }
}

/// The message for a loaded group whose identity changed.
pub open spec fn identity_changed_message() -> Seq<char> {
    "loaded chart group identity changed before topology patching"@
}

/// The message for an added group inserted past the loaded groups.
pub open spec fn insertion_message() -> Seq<char> {
    "runtime chart group insertion index exceeds loaded topology"@
}

/// The first failure, from model position `i` on, of the group identities:
/// a loaded position out of range or taken twice, or an insertion past the
/// loaded groups.
pub open spec fn identity_failure_run(groups: Seq<ChartGroupModel>, original: nat, i: int, seen: Set<usize>) -> Option<ErrorView>
    decreases groups.len() - i,
{
    if i < 0 || i >= groups.len() {
        None
    } else {
        match groups[i].loaded_index {
            Some(l) => if l >= original || seen.contains(l) {
                Some((OmErrorCode::Unsupported, identity_changed_message()))
            } else {
                identity_failure_run(groups, original, i + 1, seen.insert(l))
            },
            None => if insertion_index(groups, i, original) > original {
                Some((OmErrorCode::InvalidState, insertion_message()))
            } else {
                identity_failure_run(groups, original, i + 1, seen)
            },
        }
    }
}

/// The added groups among the first `k` model groups that go before loaded
/// group `o` (after all loaded groups when `o` is `original`), in model order.
pub open spec fn additions_upto(groups: Seq<ChartGroupModel>, original: nat, o: nat, k: int) -> Seq<usize>
    decreases k,
{
    if k <= 0 || k > groups.len() {
        Seq::empty()
    } else {
        additions_upto(groups, original, o, k - 1) + if groups[k - 1].loaded_index is None
            && insertion_index(groups, k - 1, original) == o {
            seq![(k - 1) as usize]
        } else {
            Seq::empty()
        }
    }
}

/// The added groups that go before loaded group `o`, in model order.
pub open spec fn additions_at(groups: Seq<ChartGroupModel>, original: nat, o: nat) -> Seq<usize> {
    additions_upto(groups, original, o, groups.len() as int)
}

/// The tokens of added groups.
pub open spec fn added_tokens(s: Seq<usize>) -> Seq<LoadedChartGroupSequenceToken> {
    s.map_values(|m: usize| LoadedChartGroupSequenceToken::Added(m))
}

/// The merged sequence up to loaded group `o`: for each loaded group before
/// `o`, the groups added before it, then the group itself.
pub open spec fn tokens_upto(groups: Seq<ChartGroupModel>, original: nat, o: nat) -> Seq<LoadedChartGroupSequenceToken>
    decreases o,
{
    if o == 0 {
        Seq::empty()
    } else {
        tokens_upto(groups, original, (o - 1) as nat) + added_tokens(additions_at(groups, original, (o - 1) as nat)).push(
            LoadedChartGroupSequenceToken::Original((o - 1) as usize),
        )
    }
}

/// The merged sequence of groups: the loaded groups in order, each added
/// group before the loaded group it precedes, the rest at the end.
pub open spec fn merged_tokens(groups: Seq<ChartGroupModel>, original: nat) -> Seq<LoadedChartGroupSequenceToken> {
    tokens_upto(groups, original, original) + added_tokens(additions_at(groups, original, original))
}

/// The first model group loaded at position `l`.
pub open spec fn owner_of_loaded_from(groups: Seq<ChartGroupModel>, l: usize, m: int) -> Option<int>
    decreases groups.len() - m,
{
    if m < 0 || m >= groups.len() {
        None
    } else if groups[m].loaded_index == Some(l) {
        Some(m)
    } else {
        owner_of_loaded_from(groups, l, m + 1)
    }
}

/// The model group that a token designates.
pub open spec fn token_group(groups: Seq<ChartGroupModel>, t: LoadedChartGroupSequenceToken) -> Option<int> {
    match t {
        LoadedChartGroupSequenceToken::Original(l) => owner_of_loaded_from(groups, l, 0),
        LoadedChartGroupSequenceToken::Added(m) => Some(m as int),
    }
}

/// The message for an added group whose name changed.
pub open spec fn added_identity_message() -> Seq<char> {
    "runtime-added chart group identity changed before topology patching"@
}

/// The UTF-8 bytes of a group's element name.
pub open spec fn raw_name_bytes(g: ChartGroupModel) -> Seq<u8> {
    vstd::utf8::encode_utf8(g.raw_name@)
}

/// The first token, from position `x` on, whose model group has another name
/// than the loaded XML has there.
pub open spec fn name_failure_run(
    names: Seq<Seq<u8>>,
    groups: Seq<ChartGroupModel>,
    tokens: Seq<LoadedChartGroupSequenceToken>,
    x: int,
) -> Option<ErrorView>
    decreases tokens.len() - x,
{
    if x < 0 || x >= tokens.len() {
        None
    } else {
        match tokens[x] {
            LoadedChartGroupSequenceToken::Original(l) => match owner_of_loaded_from(groups, l, 0) {
                Some(m) => if names[x] != raw_name_bytes(groups[m]) {
                    Some((OmErrorCode::Unsupported, identity_changed_message()))
                } else {
                    name_failure_run(names, groups, tokens, x + 1)
                },
                None => name_failure_run(names, groups, tokens, x + 1),
            },
            LoadedChartGroupSequenceToken::Added(m) => if names[x] != raw_name_bytes(groups[m as int]) {
                Some((OmErrorCode::Unsupported, added_identity_message()))
            } else {
                name_failure_run(names, groups, tokens, x + 1)
            },
        }
    }
}

/// The last position of the tokens before `k` that designates model group `m`.
pub open spec fn last_position_upto(groups: Seq<ChartGroupModel>, tokens: Seq<LoadedChartGroupSequenceToken>, m: int, k: int) -> Option<int>
    decreases k,
{
    if k <= 0 || k > tokens.len() {
        None
    } else if token_group(groups, tokens[k - 1]) == Some(m) {
        Some(k - 1)
    } else {
        last_position_upto(groups, tokens, m, k - 1)
    }
}

/// Whether every model group is designated by some token.
pub open spec fn all_groups_placed(groups: Seq<ChartGroupModel>, tokens: Seq<LoadedChartGroupSequenceToken>) -> bool {
    forall|m: int| 0 <= m < groups.len() ==> #[trigger] last_position_upto(groups, tokens, m, tokens.len() as int) is Some
}

/// The message for a loaded XML with fewer groups than the model added.
pub open spec fn fewer_groups_message() -> Seq<char> {
    "loaded chart has fewer XML groups than runtime additions"@
}

/// The message for a merged sequence of the wrong length.
pub open spec fn sequence_length_message() -> Seq<char> {
    "loaded chart group sequence does not match runtime topology"@
}

/// The message for a model group with no place in the XML.
pub open spec fn unplaced_message() -> Seq<char> {
    "chart model group could not be mapped to loaded XML"@
}

/// The failure, if any, of lining up the model's groups with the loaded
/// group names.
pub open spec fn sequence_failure(names: Seq<Seq<u8>>, groups: Seq<ChartGroupModel>) -> Option<ErrorView> {
    let added = added_count(groups);
    if added > names.len() {
        Some((OmErrorCode::InvalidState, fewer_groups_message()))
    } else {
        let original = (names.len() - added) as nat;
        let tokens = merged_tokens(groups, original);
        match identity_failure_run(groups, original, 0, Set::empty()) {
            Some(f) => Some(f),
            None => if tokens.len() != names.len() {
                Some((OmErrorCode::InvalidState, sequence_length_message()))
            } else {
                match name_failure_run(names, groups, tokens, 0) {
                    Some(f) => Some(f),
                    None => if !all_groups_placed(groups, tokens) {
                        Some((OmErrorCode::InvalidState, unplaced_message()))
                    } else {
                        None
                    },
                }
            },
        }
    }
}

/// Whether some model group is loaded at position `o`.
pub open spec fn loaded_survives(groups: Seq<ChartGroupModel>, o: int) -> bool {
    exists|m: int| 0 <= m < groups.len() && (#[trigger] groups[m]).loaded_index == Some(o as usize)
}

proof fn lemma_last_position(groups: Seq<ChartGroupModel>, tokens: Seq<LoadedChartGroupSequenceToken>, m: int, k: int)
    ensures
        last_position_upto(groups, tokens, m, k) matches Some(j) ==> 0 <= j < k && k <= tokens.len() && token_group(
            groups,
            tokens[j],
        ) == Some(m),
    decreases k,
{
    if k > 0 && k <= tokens.len() && token_group(groups, tokens[k - 1]) != Some(m) {
        lemma_last_position(groups, tokens, m, k - 1);
    }
}

proof fn lemma_names_agree(names: Seq<Seq<u8>>, groups: Seq<ChartGroupModel>, tokens: Seq<LoadedChartGroupSequenceToken>, x: int)
    requires
        0 <= x,
        tokens.len() == names.len(),
        name_failure_run(names, groups, tokens, x) is None,
    ensures
        forall|j: int, m: int|
            x <= j < tokens.len() && #[trigger] token_group(groups, tokens[j]) == Some(m) ==> names[j] == raw_name_bytes(
                #[trigger] groups[m],
            ),
    decreases tokens.len() - x,
{
    if x < tokens.len() {
        lemma_names_agree(names, groups, tokens, x + 1);
    }
}

/// What a successful line-up holds: one token per loaded group name, and
/// each model group placed at a distinct position whose loaded name is the
/// group's own name.
pub proof fn lemma_group_sequence_places(names: Seq<Seq<u8>>, groups: Seq<ChartGroupModel>)
    requires
        sequence_failure(names, groups) is None,
    ensures
        ({
            let original = (names.len() - added_count(groups)) as nat;
            let tokens = merged_tokens(groups, original);
            &&& tokens.len() == names.len()
            &&& forall|m: int|
                0 <= m < groups.len() ==> ((#[trigger] last_position_upto(groups, tokens, m, tokens.len() as int)) matches Some(j)
                    && 0 <= j < names.len() && names[j] == raw_name_bytes(groups[m]))
            &&& forall|m1: int, m2: int|
                0 <= m1 < groups.len() && 0 <= m2 < groups.len() && m1 != m2 ==> #[trigger] last_position_upto(
                    groups,
                    tokens,
                    m1,
                    tokens.len() as int,
                ) != #[trigger] last_position_upto(groups, tokens, m2, tokens.len() as int)
        }),
{
    let original = (names.len() - added_count(groups)) as nat;
    let tokens = merged_tokens(groups, original);
    lemma_names_agree(names, groups, tokens, 0);
    assert forall|m: int| 0 <= m < groups.len() implies ((#[trigger] last_position_upto(groups, tokens, m, tokens.len() as int)) matches Some(j)
        && 0 <= j < names.len() && names[j] == raw_name_bytes(groups[m])) by {
        lemma_last_position(groups, tokens, m, tokens.len() as int);
        let j = last_position_upto(groups, tokens, m, tokens.len() as int)->Some_0;
        assert(token_group(groups, tokens[j]) == Some(m));
    }
    assert forall|m1: int, m2: int|
        0 <= m1 < groups.len() && 0 <= m2 < groups.len() && m1 != m2 implies #[trigger] last_position_upto(
            groups,
            tokens,
            m1,
            tokens.len() as int,
        ) != #[trigger] last_position_upto(groups, tokens, m2, tokens.len() as int) by {
        lemma_last_position(groups, tokens, m1, tokens.len() as int);
        lemma_last_position(groups, tokens, m2, tokens.len() as int);
    }
}

fn count_added(groups: &Vec<ChartGroupModel>) -> (n: usize)
    ensures
        n == added_count(groups@),
{
    let mut n: usize = 0;
    let mut i: usize = 0;
    assert(groups@.subrange(0, 0) =~= Seq::<ChartGroupModel>::empty());
    while i < groups.len()
        invariant
            i <= groups@.len(),
            n == added_count(groups@.subrange(0, i as int)),
            n <= i,
        decreases groups@.len() - i,
    {
        assert(groups@.subrange(0, i + 1).drop_last() =~= groups@.subrange(0, i as int));
        if groups[i].loaded_index.is_none() {
            n += 1;
        }
        i += 1;
    }
    assert(groups@.subrange(0, groups@.len() as int) =~= groups@);
    n
}

/// The loaded position of the first loaded group from model position `from` on.
pub(crate) fn next_loaded(groups: &Vec<ChartGroupModel>, from: usize) -> (r: Option<usize>)
    ensures
        r == next_loaded_from(groups@, from as int),
{
    let mut i: usize = from;
    while i < groups.len()
        invariant
            from <= i,
            next_loaded_from(groups@, from as int) == next_loaded_from(groups@, i as int),
        decreases groups@.len() - i,
    {
        if let Some(l) = groups[i].loaded_index {
            return Some(l);
        }
        i += 1;
    }
    None
}

fn owner_of_loaded(groups: &Vec<ChartGroupModel>, l: usize) -> (r: Option<usize>)
    ensures
        match r {
            Some(m) => owner_of_loaded_from(groups@, l, 0) == Some(m as int) && m < groups@.len(),
            None => owner_of_loaded_from(groups@, l, 0) is None,
        },
{
    let mut m: usize = 0;
    while m < groups.len()
        invariant
            m <= groups@.len(),
            owner_of_loaded_from(groups@, l, 0) == owner_of_loaded_from(groups@, l, m as int),
        decreases groups@.len() - m,
    {
        if groups[m].loaded_index == Some(l) {
            return Some(m);
        }
        m += 1;
    }
    None
}

proof fn lemma_additions_step(groups: Seq<ChartGroupModel>, original: nat, o: nat, k: int)
    requires
        0 <= k < groups.len(),
    ensures
        additions_upto(groups, original, o, k + 1) == additions_upto(groups, original, o, k) + if groups[k].loaded_index is None
            && insertion_index(groups, k, original) == o {
            seq![k as usize]
        } else {
            Seq::<usize>::empty()
        },
{
}

/// Lines up the groups of a chart model with the group names of its loaded XML.
pub fn loaded_chart_group_sequence(loaded_group_names: &Vec<Vec<u8>>, chart: &ChartModel) -> (r: Result<LoadedChartGroupSequence, OmError>)
    ensures
        ({
            let names = loaded_group_names@.map_values(|v: Vec<u8>| v@);
            let groups = chart.groups@;
            match sequence_failure(names, groups) {
                Some(f) => r matches Err(e) && error_view(e) == f,
                None => r matches Ok(s) && {
                    let original = (names.len() - added_count(groups)) as nat;
                    &&& s.tokens@ == merged_tokens(groups, original)
                    &&& s.surviving_original_groups@.len() == original
                    &&& forall|o: int| 0 <= o < original ==> #[trigger] s.surviving_original_groups@[o] == loaded_survives(groups, o)
                    &&& s.model_to_xml@.len() == groups.len()
                    &&& forall|m: int| 0 <= m < groups.len() ==> last_position_upto(groups, s.tokens@, m, s.tokens@.len() as int)
                        == Some(#[trigger] s.model_to_xml@[m] as int)
                },
            }
        }),
{
    let ghost names = loaded_group_names@.map_values(|v: Vec<u8>| v@);
    let ghost groups = chart.groups@;
    let n = loaded_group_names.len();
    let added = count_added(&chart.groups);
    if added > n {
        return Err(OmError {
            code: OmErrorCode::InvalidState,
            message: String::from_str("loaded chart has fewer XML groups than runtime additions"),
        });
    }
    let original = n - added;
    let ghost orig = original as nat;
    let mut surviving: Vec<bool> = Vec::new();
    let mut o: usize = 0;
    while o < original
        invariant
            o <= original,
            surviving@ == Seq::new(o as nat, |x: int| false),
        decreases original - o,
    {
        surviving.push(false);
        assert(surviving@ =~= Seq::new((o + 1) as nat, |x: int| false));
        o += 1;
    }
    let mut additions_before: Vec<Vec<usize>> = Vec::new();
    additions_before.push(Vec::new());
    let mut o2: usize = 0;
    while o2 < original
        invariant
            o2 <= original,
            additions_before@.len() == o2 + 1,
            forall|x: int| 0 <= x <= o2 ==> (#[trigger] additions_before@[x])@ == Seq::<usize>::empty(),
        decreases original - o2,
    {
        additions_before.push(Vec::new());
        o2 += 1;
    }
    let mut i: usize = 0;
    let ghost mut seen: Set<usize> = Set::empty();
    assert forall|x: int| 0 <= x <= original implies (#[trigger] additions_before@[x])@ == additions_upto(groups, orig, x as nat, 0) by {}
    while i < chart.groups.len()
        invariant
            i <= groups.len(),
            groups == chart.groups@,
            names == loaded_group_names@.map_values(|v: Vec<u8>| v@),
            n == names.len(),
            added == added_count(groups),
            added <= n,
            original == n - added,
            orig == original,
            surviving@.len() == original,
            additions_before@.len() == original + 1,
            identity_failure_run(groups, orig, 0, Set::empty()) == identity_failure_run(groups, orig, i as int, seen),
            forall|x: int| 0 <= x <= original ==> (#[trigger] additions_before@[x])@ == additions_upto(groups, orig, x as nat, i as int),
            forall|x: int, j: int| 0 <= x <= original && 0 <= j < additions_before@[x]@.len() ==> #[trigger] additions_before@[x]@[j] < i,
            forall|x: int| 0 <= x < original ==> (#[trigger] surviving@[x] <==> seen.contains(x as usize)),
            forall|x: usize| #[trigger] seen.contains(x) ==> x < original,
            forall|x: usize| #[trigger] seen.contains(x) <==> exists|m: int| 0 <= m < i && groups[m].loaded_index == Some(x),
        decreases groups.len() - i,
    {
        proof {
            assert forall|x: int| 0 <= x <= original implies (#[trigger] additions_upto(groups, orig, x as nat, i + 1))
                == additions_upto(groups, orig, x as nat, i as int) + if groups[i as int].loaded_index is None
                && insertion_index(groups, i as int, orig) == x as nat {
                seq![i]
            } else {
                Seq::<usize>::empty()
            } by {
                lemma_additions_step(groups, orig, x as nat, i as int);
            }
        }
        match chart.groups[i].loaded_index {
            Some(l) => {
                if l >= original || surviving[l] {
                    return Err(OmError {
                        code: OmErrorCode::Unsupported,
                        message: String::from_str("loaded chart group identity changed before topology patching"),
                    });
                }
                surviving.set(l, true);
                proof {
                    seen = seen.insert(l);
                    assert forall|x: usize| #[trigger] seen.contains(x) <==> exists|m: int| 0 <= m < i + 1 && groups[m].loaded_index == Some(x) by {
                        if x == l {
                            assert(groups[i as int].loaded_index == Some(x));
                        }
                        if exists|m: int| 0 <= m < i + 1 && groups[m].loaded_index == Some(x) {
                            let m = choose|m: int| 0 <= m < i + 1 && groups[m].loaded_index == Some(x);
                            if m < i {
                            }
                        }
                    }
                }
            },
            None => {
                let insertion = match next_loaded(&chart.groups, i + 1) {
                    Some(l) => l,
                    None => original,
                };
                assert(insertion == insertion_index(groups, i as int, orig));
                if insertion > original {
                    return Err(OmError {
                        code: OmErrorCode::InvalidState,
                        message: String::from_str("runtime chart group insertion index exceeds loaded topology"),
                    });
                }
                let mut list = additions_before.remove(insertion);
                let ghost prev_list = list@;
                list.push(i);
                additions_before.insert(insertion, list);
                proof {
                    assert forall|x: int| 0 <= x <= original implies (#[trigger] additions_before@[x])@ == additions_upto(groups, orig, x as nat, i + 1) by {
                        if x == insertion {
                            assert(additions_before@[x]@ =~= prev_list.push(i));
                        }
                    }
                    assert forall|x: int, j: int| 0 <= x <= original && 0 <= j < additions_before@[x]@.len() implies #[trigger] additions_before@[x]@[j] < i + 1 by {
                        if x == insertion && j == prev_list.len() {
                        }
                    }
                    assert forall|x: usize| #[trigger] seen.contains(x) <==> exists|m: int| 0 <= m < i + 1 && groups[m].loaded_index == Some(x) by {
                        if exists|m: int| 0 <= m < i + 1 && groups[m].loaded_index == Some(x) {
                            let m = choose|m: int| 0 <= m < i + 1 && groups[m].loaded_index == Some(x);
                            if m == i {
                                assert(groups[i as int].loaded_index is None);
                            }
                        }
                    }
                }
            },
        }
        i += 1;
    }
    assert(identity_failure_run(groups, orig, 0, Set::empty()) is None);
    let mut tokens: Vec<LoadedChartGroupSequenceToken> = Vec::new();
    let mut p: usize = 0;
    while p < original
        invariant
            p <= original,
            orig == original,
            additions_before@.len() == original + 1,
            forall|x: int| 0 <= x <= original ==> (#[trigger] additions_before@[x])@ == additions_at(groups, orig, x as nat),
            forall|x: int, j: int| 0 <= x <= original && 0 <= j < additions_before@[x]@.len() ==> #[trigger] additions_before@[x]@[j] < groups.len(),
            tokens@ == tokens_upto(groups, orig, p as nat),
            forall|k: int| 0 <= k < tokens@.len() ==> (#[trigger] tokens@[k] matches LoadedChartGroupSequenceToken::Added(a) ==> a < groups.len()),
        decreases original - p,
    {
        let list = &additions_before[p];
        let ghost before = tokens@;
        let mut q: usize = 0;
        while q < list.len()
            invariant
                q <= list@.len(),
                forall|j: int| 0 <= j < list@.len() ==> #[trigger] list@[j] < groups.len(),
                tokens@ == before + added_tokens(list@.subrange(0, q as int)),
                forall|k: int| 0 <= k < tokens@.len() ==> (#[trigger] tokens@[k] matches LoadedChartGroupSequenceToken::Added(a) ==> a < groups.len()),
            decreases list@.len() - q,
        {
            tokens.push(LoadedChartGroupSequenceToken::Added(list[q]));
            assert(added_tokens(list@.subrange(0, q + 1)) =~= added_tokens(list@.subrange(0, q as int)).push(
                LoadedChartGroupSequenceToken::Added(list@[q as int]),
            ));
            q += 1;
        }
        assert(list@.subrange(0, list@.len() as int) =~= list@);
        tokens.push(LoadedChartGroupSequenceToken::Original(p));
        p += 1;
    }
    let tail = &additions_before[original];
    let ghost before_tail = tokens@;
    let mut q: usize = 0;
    while q < tail.len()
        invariant
            q <= tail@.len(),
            forall|j: int| 0 <= j < tail@.len() ==> #[trigger] tail@[j] < groups.len(),
            tokens@ == before_tail + added_tokens(tail@.subrange(0, q as int)),
            forall|k: int| 0 <= k < tokens@.len() ==> (#[trigger] tokens@[k] matches LoadedChartGroupSequenceToken::Added(a) ==> a < groups.len()),
        decreases tail@.len() - q,
    {
        tokens.push(LoadedChartGroupSequenceToken::Added(tail[q]));
        assert(added_tokens(tail@.subrange(0, q + 1)) =~= added_tokens(tail@.subrange(0, q as int)).push(
            LoadedChartGroupSequenceToken::Added(tail@[q as int]),
        ));
        q += 1;
    }
    assert(tail@.subrange(0, tail@.len() as int) =~= tail@);
    assert(tokens@ == merged_tokens(groups, orig));
    if tokens.len() != n {
        return Err(OmError {
            code: OmErrorCode::InvalidState,
            message: String::from_str("loaded chart group sequence does not match runtime topology"),
        });
    }
    let mut model_to_xml: Vec<usize> = Vec::new();
    let mut m0: usize = 0;
    while m0 < chart.groups.len()
        invariant
            m0 <= groups.len(),
            groups == chart.groups@,
            model_to_xml@.len() == m0,
            forall|m: int| 0 <= m < m0 ==> #[trigger] model_to_xml@[m] == usize::MAX,
        decreases groups.len() - m0,
    {
        model_to_xml.push(usize::MAX);
        m0 += 1;
    }
    let mut x: usize = 0;
    while x < tokens.len()
        invariant
            x <= tokens@.len(),
            tokens@.len() == n,
            n == names.len(),
            names == loaded_group_names@.map_values(|v: Vec<u8>| v@),
            groups == chart.groups@,
            added == added_count(groups),
            added <= n,
            original == n - added,
            orig == original,
            identity_failure_run(groups, orig, 0, Set::empty()) is None,
            tokens@ == merged_tokens(groups, orig),
            model_to_xml@.len() == groups.len(),
            name_failure_run(names, groups, tokens@, 0) == name_failure_run(names, groups, tokens@, x as int),
            forall|m: int| 0 <= m < groups.len() ==> (#[trigger] model_to_xml@[m]) == match last_position_upto(groups, tokens@, m, x as int) {
                Some(p) => p as usize,
                None => usize::MAX,
            },
            forall|m: int| 0 <= m < groups.len() ==> (#[trigger] last_position_upto(groups, tokens@, m, x as int) matches Some(p) ==> 0 <= p < x),
            forall|k: int| 0 <= k < tokens@.len() ==> (#[trigger] tokens@[k] matches LoadedChartGroupSequenceToken::Added(a) ==> a < groups.len()),
        decreases tokens@.len() - x,
    {
        let token = tokens[x];
        assert(names[x as int] == loaded_group_names@[x as int]@);
        let target: Option<usize> = match token {
            LoadedChartGroupSequenceToken::Original(l) => {
                match owner_of_loaded(&chart.groups, l) {
                    Some(m) => {
                        if !bytes_eq(loaded_group_names[x].as_slice(), chart.groups[m].raw_name.as_str().as_bytes()) {
                            return Err(OmError {
                                code: OmErrorCode::Unsupported,
                                message: String::from_str("loaded chart group identity changed before topology patching"),
                            });
                        }
                        Some(m)
                    },
                    None => None,
                }
            },
            LoadedChartGroupSequenceToken::Added(m) => {
                if !bytes_eq(loaded_group_names[x].as_slice(), chart.groups[m].raw_name.as_str().as_bytes()) {
                    return Err(OmError {
                        code: OmErrorCode::Unsupported,
                        message: String::from_str("runtime-added chart group identity changed before topology patching"),
                    });
                }
                Some(m)
            },
        };
        assert(match target {
            Some(t) => token_group(groups, tokens@[x as int]) == Some(t as int) && t < groups.len(),
            None => token_group(groups, tokens@[x as int]) is None,
        });
        if let Some(m) = target {
            model_to_xml.set(m, x);
        }
        proof {
            assert forall|m: int| 0 <= m < groups.len() implies (#[trigger] last_position_upto(groups, tokens@, m, x + 1) matches Some(p) ==> 0 <= p < x + 1) by {
                assert(last_position_upto(groups, tokens@, m, x + 1) == if token_group(groups, tokens@[x as int]) == Some(m) {
                    Some(x as int)
                } else {
                    last_position_upto(groups, tokens@, m, x as int)
                });
            }
            assert forall|m: int| 0 <= m < groups.len() implies (#[trigger] model_to_xml@[m]) == match last_position_upto(groups, tokens@, m, x + 1) {
                Some(p) => p as usize,
                None => usize::MAX,
            } by {
                assert(last_position_upto(groups, tokens@, m, x + 1) == if token_group(groups, tokens@[x as int]) == Some(m) {
                    Some(x as int)
                } else {
                    last_position_upto(groups, tokens@, m, x as int)
                });
            }
        }
        x += 1;
    }
    let mut m1: usize = 0;
    while m1 < model_to_xml.len()
        invariant
            m1 <= model_to_xml@.len(),
            model_to_xml@.len() == groups.len(),
            groups == chart.groups@,
            tokens@.len() == n,
            n == names.len(),
            names == loaded_group_names@.map_values(|v: Vec<u8>| v@),
            added == added_count(groups),
            added <= n,
            original == n - added,
            orig == original,
            identity_failure_run(groups, orig, 0, Set::empty()) is None,
            tokens@ == merged_tokens(groups, orig),
            name_failure_run(names, groups, tokens@, 0) is None,
            forall|m: int| 0 <= m < groups.len() ==> (#[trigger] model_to_xml@[m]) == match last_position_upto(groups, tokens@, m, tokens@.len() as int) {
                Some(p) => p as usize,
                None => usize::MAX,
            },
            forall|m: int| 0 <= m < groups.len() ==> (#[trigger] last_position_upto(groups, tokens@, m, tokens@.len() as int) matches Some(p) ==> 0 <= p < tokens@.len()),
            forall|m: int| 0 <= m < m1 ==> #[trigger] last_position_upto(groups, tokens@, m, tokens@.len() as int) is Some,
        decreases model_to_xml@.len() - m1,
    {
        if model_to_xml[m1] == usize::MAX {
            assert(last_position_upto(groups, tokens@, m1 as int, tokens@.len() as int) is None);
            assert(!all_groups_placed(groups, tokens@));
            return Err(OmError {
                code: OmErrorCode::InvalidState,
                message: String::from_str("chart model group could not be mapped to loaded XML"),
            });
        }
        m1 += 1;
    }
    assert(all_groups_placed(groups, tokens@));
    Ok(LoadedChartGroupSequence { tokens, model_to_xml, surviving_original_groups: surviving })
}

/// A model group is placed at a position whose token designates it.
pub proof fn lemma_placement_designates_group(
    groups: Seq<ChartGroupModel>,
    tokens: Seq<LoadedChartGroupSequenceToken>,
    m: int,
    k: int,
)
    ensures
        last_position_upto(groups, tokens, m, k) matches Some(p) ==> 0 <= p < k && p < tokens.len()
            && token_group(groups, tokens[p]) == Some(m),
    decreases k,
{
    if 0 < k <= tokens.len() && token_group(groups, tokens[k - 1]) != Some(m) {
        lemma_placement_designates_group(groups, tokens, m, k - 1);
    }
}

/// Two model groups are never placed at the same position of the merged
/// sequence: where a group lands determines the group.
pub proof fn lemma_placements_are_distinct(
    groups: Seq<ChartGroupModel>,
    tokens: Seq<LoadedChartGroupSequenceToken>,
    m1: int,
    m2: int,
)
    requires
        last_position_upto(groups, tokens, m1, tokens.len() as int) is Some,
        last_position_upto(groups, tokens, m1, tokens.len() as int) == last_position_upto(
            groups,
            tokens,
            m2,
            tokens.len() as int,
        ),
    ensures
        m1 == m2,
{
    lemma_placement_designates_group(groups, tokens, m1, tokens.len() as int);
    lemma_placement_designates_group(groups, tokens, m2, tokens.len() as int);
}

proof fn lemma_originals_bounded_upto(groups: Seq<ChartGroupModel>, original: nat, o: nat)
    ensures
        forall|k: int|
            0 <= k < tokens_upto(groups, original, o).len() ==> (#[trigger] tokens_upto(groups, original, o)[k] matches LoadedChartGroupSequenceToken::Original(l) ==> l < o),
    decreases o,
{
    if o > 0 {
        lemma_originals_bounded_upto(groups, original, (o - 1) as nat);
        let prev = tokens_upto(groups, original, (o - 1) as nat);
        let adds = added_tokens(additions_at(groups, original, (o - 1) as nat));
        assert forall|k: int| 0 <= k < tokens_upto(groups, original, o).len() implies (#[trigger] tokens_upto(groups, original, o)[k] matches LoadedChartGroupSequenceToken::Original(l) ==> l < o) by {
            let t = tokens_upto(groups, original, o);
            if k < prev.len() {
                assert(t[k] == prev[k]);
            } else if k < prev.len() + adds.len() {
                assert(t[k] == adds[k - prev.len()]);
            }
        }
    }
}

/// Every loaded-group token of the merged sequence names one of the
/// `original` loaded groups.
pub proof fn lemma_merged_originals_bounded(groups: Seq<ChartGroupModel>, original: nat)
    ensures
        forall|k: int|
            0 <= k < merged_tokens(groups, original).len() ==> (#[trigger] merged_tokens(groups, original)[k] matches LoadedChartGroupSequenceToken::Original(l) ==> l < original),
{
    lemma_originals_bounded_upto(groups, original, original);
    let head = tokens_upto(groups, original, original);
    let tail = added_tokens(additions_at(groups, original, original));
    assert forall|k: int| 0 <= k < merged_tokens(groups, original).len() implies (#[trigger] merged_tokens(groups, original)[k] matches LoadedChartGroupSequenceToken::Original(l) ==> l < original) by {
        if k < head.len() {
            assert(merged_tokens(groups, original)[k] == head[k]);
        } else {
            assert(merged_tokens(groups, original)[k] == tail[k - head.len()]);
        }
    }
}

} // verus!
