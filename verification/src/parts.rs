//! Package parts and relationship entries, and the predicates that classify
//! them by name and content type.
use vstd::prelude::*;
use crate::kinds::{
    active_content_kind_from_content_type, content_type_kind, ActiveContentKind, KindSet,
};
use crate::text::{
    after_last, after_last_vec, chars_eq_ignore_case, chars_of, ends_with, ends_with_str,
    eq_ignore_case, has_char, lower, lower_vec, media_type, media_type_vec, starts_with,
    starts_with_str, string_of, sub_vec, find_char,
};

verus! {

/// One part of an Open Packaging Conventions package.
pub struct OpcPart {
    pub name: String,
    pub content_type: Option<String>,
    pub bytes: Vec<u8>,
}

/// One `Relationship` element of a relationships part, with its target
/// resolved against the owner part's folder.
pub struct RelationshipEntry {
    pub id: String,
    pub relationship_type: String,
    pub target: String,
    pub target_mode: Option<String>,
}

/// The content type of the relationships parts.
pub open spec fn relationships_content_type() -> Seq<char> {
    "application/vnd.openxmlformats-package.relationships+xml"@
}

/// The content-type view of an optional string.
pub open spec fn opt_view(o: Option<String>) -> Option<Seq<char>> {
    match o {
        Some(s) => Some(s@),
        None => None,
    }
}

/// Whether the text after the last `.` of `name` equals `ext`, ignoring ASCII case.
pub open spec fn has_extension(name: Seq<char>, ext: Seq<char>) -> bool {
    after_last(name, '.') matches Some(e) && eq_ignore_case(e, ext)
}

/// A part is a relationships part when its extension is `rels` or its media
/// type is the relationships content type.
pub open spec fn is_relationships_part_spec(name: Seq<char>, content_type: Option<Seq<char>>) -> bool {
    has_extension(name, "rels"@) || (content_type matches Some(ct) && eq_ignore_case(
        media_type(ct),
        relationships_content_type(),
    ))
}

/// A part holds XML when its media type is `application/xml`, `text/xml` or
/// ends in `+xml`, or its extension is `xml` or `vml`.
pub open spec fn part_is_xml_spec(name: Seq<char>, content_type: Option<Seq<char>>) -> bool {
    (content_type matches Some(ct) && {
        let m = media_type(ct);
        eq_ignore_case(m, "application/xml"@) || eq_ignore_case(m, "text/xml"@) || ends_with(
            lower(m),
            "+xml"@,
        )
    }) || has_extension(name, "xml"@) || has_extension(name, "vml"@)
}

fn extension_is(name: &[char], ext: &str) -> (r: bool)
    ensures
        r == has_extension(name@, ext@),
{
    match after_last_vec(name, '.') {
        Some(e) => {
            let x = chars_of(ext);
            chars_eq_ignore_case(&e, &x)
        },
        None => false,
    }
}

fn media_type_is(ct: &str, expected: &str) -> (r: bool)
    ensures
        r == eq_ignore_case(media_type(ct@), expected@),
{
    let m = media_type_vec(ct);
    let x = chars_of(expected);
    chars_eq_ignore_case(&m, &x)
}

/// Whether a part is a relationships part.
pub fn is_relationships_part(part: &OpcPart) -> (r: bool)
    ensures
        r == is_relationships_part_spec(part.name@, opt_view(part.content_type)),
{
    let name = chars_of(part.name.as_str());
    if extension_is(&name, "rels") {
        return true;
    }
    match &part.content_type {
        Some(ct) => media_type_is(
            ct.as_str(),
            "application/vnd.openxmlformats-package.relationships+xml",
        ),
        None => false,
    }
}

/// Whether a part holds XML.
pub fn part_is_xml(part: &OpcPart) -> (r: bool)
    ensures
        r == part_is_xml_spec(part.name@, opt_view(part.content_type)),
{
    let by_type = match &part.content_type {
        Some(ct) => {
            let m = media_type_vec(ct.as_str());
            let app = chars_of("application/xml");
            let txt = chars_of("text/xml");
            let lm = lower_vec(&m);
            chars_eq_ignore_case(&m, &app) || chars_eq_ignore_case(&m, &txt) || ends_with_str(
                &lm,
                "+xml",
            )
        },
        None => false,
    };
    if by_type {
        return true;
    }
    let name = chars_of(part.name.as_str());
    extension_is(&name, "xml") || extension_is(&name, "vml")
}

/// A relationship is external when its target mode is `External`, ignoring ASCII case.
pub open spec fn is_external_spec(target_mode: Option<Seq<char>>) -> bool {
    target_mode matches Some(m) && eq_ignore_case(m, "External"@)
}

/// Whether a relationship points outside the package.
pub fn relationship_is_external(relationship: &RelationshipEntry) -> (r: bool)
    ensures
        r == is_external_spec(opt_view(relationship.target_mode)),
{
    match &relationship.target_mode {
        Some(m) => {
            let v = chars_of(m.as_str());
            let x = chars_of("External");
            chars_eq_ignore_case(&v, &x)
        },
        None => false,
    }
}

/// The number of leading `/` characters.
pub open spec fn leading_slashes(s: Seq<char>) -> nat
    decreases s.len(),
{
    if s.len() > 0 && s[0] == '/' {
        1 + leading_slashes(s.drop_first())
    } else {
        0
    }
}

/// The last `/`-separated segment of a name (the whole name when it has no `/`).
pub open spec fn file_name(s: Seq<char>) -> Seq<char> {
    match after_last(s, '/') {
        Some(t) => t,
        None => s,
    }
}

/// Whether a part with this name and content type carries active content of kind `k`.
pub open spec fn part_has_kind(
    name: Seq<char>,
    content_type: Option<Seq<char>>,
    k: ActiveContentKind,
) -> bool {
    let n = lower(name.skip(leading_slashes(name) as int));
    ||| (content_type matches Some(ct) && content_type_kind(ct) == Some(k))
    ||| match k {
        ActiveContentKind::VbaProject => n == "xl/vbaproject.bin"@,
        ActiveContentKind::VbaProjectSignature => starts_with(
            file_name(n),
            "vbaprojectsignature"@,
        ) && ends_with(file_name(n), ".bin"@),
        ActiveContentKind::VbaData => n == "xl/vbadata.xml"@,
        ActiveContentKind::XlmMacroSheet => starts_with(n, "xl/macrosheets/"@),
        ActiveContentKind::DialogSheet => starts_with(n, "xl/dialogsheets/"@),
        ActiveContentKind::ActiveXControl => starts_with(n, "xl/activex/"@) || starts_with(
            n,
            "xl/ctrlprops/"@,
        ),
        ActiveContentKind::EmbeddedObject => starts_with(n, "xl/embeddings/"@),
        ActiveContentKind::CustomUi => starts_with(n, "customui/"@),
    }
}

/// The active-content kinds of a part, from its name and content type.
pub open spec fn part_kinds(name: Seq<char>, content_type: Option<Seq<char>>) -> Set<
    ActiveContentKind,
> {
    Set::new(|k: ActiveContentKind| part_has_kind(name, content_type, k))
}

fn skip_leading_slashes(v: &[char]) -> (r: Vec<char>)
    ensures
        r@ == v@.skip(leading_slashes(v@) as int),
{
    let mut i: usize = 0;
    assert(v@.skip(0) =~= v@);
    while i < v.len() && v[i] == '/'
        invariant
            i <= v.len(),
            leading_slashes(v@) == i + leading_slashes(v@.skip(i as int)),
        decreases v.len() - i,
    {
        assert(v@.skip(i as int).drop_first() =~= v@.skip(i + 1));
        i += 1;
    }
    assert(leading_slashes(v@.skip(i as int)) == 0);
    sub_vec(v, i, v.len())
}

/// The active-content kinds of a part.
pub fn active_content_kinds_for_part(part: &OpcPart) -> (r: KindSet)
    ensures
        r.wf(),
        r@ == part_kinds(part.name@, opt_view(part.content_type)),
{
    let name = chars_of(part.name.as_str());
    let stripped = skip_leading_slashes(&name);
    let n = lower_vec(&stripped);
    let file = match after_last_vec(&n, '/') {
        Some(t) => t,
        None => sub_vec(&n, 0, n.len()),
    };
    assert(n@.subrange(0, n@.len() as int) =~= n@);
    assert(file@ == file_name(n@));
    let mut kinds = KindSet::new();
    if chars_eq_str_local(&n, "xl/vbaproject.bin") {
        kinds.insert(ActiveContentKind::VbaProject);
    }
    if starts_with_str(&file, "vbaprojectsignature") && ends_with_str(&file, ".bin") {
        kinds.insert(ActiveContentKind::VbaProjectSignature);
    }
    if chars_eq_str_local(&n, "xl/vbadata.xml") {
        kinds.insert(ActiveContentKind::VbaData);
    }
    if starts_with_str(&n, "xl/macrosheets/") {
        kinds.insert(ActiveContentKind::XlmMacroSheet);
    }
    if starts_with_str(&n, "xl/dialogsheets/") {
        kinds.insert(ActiveContentKind::DialogSheet);
    }
    if starts_with_str(&n, "xl/activex/") || starts_with_str(&n, "xl/ctrlprops/") {
        kinds.insert(ActiveContentKind::ActiveXControl);
    }
    if starts_with_str(&n, "xl/embeddings/") {
        kinds.insert(ActiveContentKind::EmbeddedObject);
    }
    if starts_with_str(&n, "customui/") {
        kinds.insert(ActiveContentKind::CustomUi);
    }
    if let Some(ct) = &part.content_type {
        if let Some(kind) = active_content_kind_from_content_type(ct.as_str()) {
            kinds.insert(kind);
        }
    }
    assert forall|k: ActiveContentKind| #[trigger] kinds@.contains(k) <==> part_has_kind(
        part.name@,
        opt_view(part.content_type),
        k,
    ) by {
        match k {
            ActiveContentKind::VbaProject => {},
            ActiveContentKind::VbaProjectSignature => {},
            ActiveContentKind::VbaData => {},
            ActiveContentKind::XlmMacroSheet => {},
            ActiveContentKind::DialogSheet => {},
            ActiveContentKind::ActiveXControl => {},
            ActiveContentKind::EmbeddedObject => {},
            ActiveContentKind::CustomUi => {},
        }
    }
    assert(kinds@ =~= part_kinds(part.name@, opt_view(part.content_type)));
    kinds
}

fn chars_eq_str_local(v: &[char], lit: &str) -> (r: bool)
    ensures
        r == (v@ == lit@),
{
    crate::text::chars_eq_str(v, lit)
}

/// Whether `p` occurs in `s` starting at index `i`.
pub open spec fn occurs_at(s: Seq<char>, p: Seq<char>, i: int) -> bool {
    0 <= i && i + p.len() <= s.len() && s.subrange(i, i + p.len()) == p
}

/// The largest start index `<= k` at which `p` occurs in `s`, or -1.
pub open spec fn last_occurrence_from(s: Seq<char>, p: Seq<char>, k: int) -> int
    decreases k + 1,
{
    if k < 0 {
        -1
    } else if occurs_at(s, p, k) {
        k
    } else {
        last_occurrence_from(s, p, k - 1)
    }
}

/// The start index of the last occurrence of `p` in `s`, or -1.
pub open spec fn last_occurrence(s: Seq<char>, p: Seq<char>) -> int {
    last_occurrence_from(s, p, s.len() - p.len())
}

/// `str::split('/')`: the segments between slashes, empty ones included.
pub open spec fn split_slash(s: Seq<char>) -> Seq<Seq<char>>
    decreases s.len(),
{
    if has_char(s, '/') {
        let i = crate::text::first_index(s, '/');
        if 0 <= i < s.len() {
            seq![s.take(i)] + split_slash(s.skip(i + 1))
        } else {
            seq![s]
        }
    } else {
        seq![s]
    }
}

/// The owner part and base folder segments of a relationships part name:
/// `_rels/.rels` belongs to the package; `<parent>/_rels/<file>.rels`
/// belongs to `<parent>/<file>`; any other name has no owner.
pub open spec fn owner_and_base(uri: Seq<char>) -> Option<(Option<Seq<char>>, Seq<Seq<char>>)> {
    if eq_ignore_case(uri, "_rels/.rels"@) {
        Some((None, Seq::empty()))
    } else {
        let i = last_occurrence(uri, "/_rels/"@);
        if i < 0 {
            None
        } else {
            let parent = uri.take(i);
            let rel = uri.skip(i + 7);
            if !ends_with(rel, ".rels"@) {
                None
            } else {
                let owner = rel.take(rel.len() - 5);
                if parent.len() == 0 || owner.len() == 0 || has_char(owner, '/') {
                    None
                } else {
                    Some((Some(parent + seq!['/'] + owner), split_slash(parent)))
                }
            }
        }
    }
}

/// Segments joined with slashes: `[String]::join("/")`.
pub open spec fn join_slash(segments: Seq<Seq<char>>) -> Seq<char>
    decreases segments.len(),
{
    if segments.len() == 0 {
        Seq::empty()
    } else if segments.len() == 1 {
        segments[0]
    } else {
        segments[0] + seq!['/'] + join_slash(segments.drop_first())
    }
}

proof fn lemma_split_slash_nonempty(s: Seq<char>)
    ensures
        split_slash(s).len() >= 1,
    decreases s.len(),
{
    if has_char(s, '/') {
        crate::text::lemma_first_index(s, '/');
        let i = crate::text::first_index(s, '/');
        lemma_split_slash_nonempty(s.skip(i + 1));
    }
}

/// Joining the segments of a split with slashes gives the text back.
pub proof fn lemma_join_split_slash(s: Seq<char>)
    ensures
        join_slash(split_slash(s)) == s,
    decreases s.len(),
{
    if has_char(s, '/') {
        crate::text::lemma_first_index(s, '/');
        let i = crate::text::first_index(s, '/');
        let rest = s.skip(i + 1);
        lemma_join_split_slash(rest);
        lemma_split_slash_nonempty(rest);
        let segs = split_slash(s);
        assert(segs == seq![s.take(i)] + split_slash(rest));
        assert(segs.drop_first() =~= split_slash(rest));
        assert(segs.len() >= 2);
        assert(s =~= s.take(i) + seq!['/'] + rest);
    }
}

/// A relationships part name with an owner is `<parent>/_rels/<file>.rels`
/// and its owner is `<parent>/<file>`, where the parent is the base segments
/// joined with slashes and is not empty, and the file is a non-empty name
/// without a slash.
pub proof fn lemma_owner_and_base_join(uri: Seq<char>)
    ensures
        owner_and_base(uri) matches Some((Some(owner), base)) ==> {
            let parent = join_slash(base);
            &&& parent.len() > 0
            &&& exists|file: Seq<char>|
                #![trigger owner_file_text(parent, file)]
                file.len() > 0 && !has_char(file, '/') && owner == owner_file_text(parent, file) && uri == parent
                    + "/_rels/"@ + file + ".rels"@
        },
{
    reveal_strlit("/_rels/");
    reveal_strlit(".rels");
    reveal_strlit("_rels/.rels");
    if let Some((Some(owner), base)) = owner_and_base(uri) {
        let i = last_occurrence(uri, "/_rels/"@);
        lemma_last_occurrence_from(uri, "/_rels/"@, uri.len() - 7);
        let parent = uri.take(i);
        let rel = uri.skip(i + 7);
        let file = rel.take(rel.len() - 5);
        lemma_join_split_slash(parent);
        assert(base == split_slash(parent));
        assert(join_slash(base) == parent);
        assert(rel =~= file + ".rels"@);
        assert(uri.subrange(i, i + 7) == "/_rels/"@);
        assert(uri =~= parent + "/_rels/"@ + file + ".rels"@);
        assert(owner == owner_file_text(parent, file));
    }
}

/// The owner part `<parent>/<file>`.
pub open spec fn owner_file_text(parent: Seq<char>, file: Seq<char>) -> Seq<char> {
    parent + seq!['/'] + file
}

proof fn lemma_last_occurrence_from(s: Seq<char>, p: Seq<char>, k: int)
    ensures
        last_occurrence_from(s, p, k) >= 0 ==> occurs_at(s, p, last_occurrence_from(s, p, k)),
    decreases k + 1,
{
    if k >= 0 && !occurs_at(s, p, k) {
        lemma_last_occurrence_from(s, p, k - 1);
    }
}

/// The character views of a sequence of strings.
pub open spec fn string_views(v: Seq<String>) -> Seq<Seq<char>> {
    v.map_values(|b: String| b@)
}

/// The view of the owner-and-base result.
pub open spec fn owner_and_base_view(r: Option<(Option<String>, Vec<String>)>) -> Option<
    (Option<Seq<char>>, Seq<Seq<char>>),
> {
    match r {
        None => None,
        Some((owner, base)) => Some((opt_view(owner), string_views(base@))),
    }
}

fn last_occurrence_exec(s: &[char], p: &str) -> (r: Option<usize>)
    ensures
        r is None <==> last_occurrence(s@, p@) < 0,
        r matches Some(i) ==> i == last_occurrence(s@, p@) && i + p@.len() <= s.len(),
{
    let n = p.unicode_len();
    if n > s.len() {
        assert(last_occurrence(s@, p@) == -1);
        return None;
    }
    let mut k: usize = s.len() - n;
    loop
        invariant
            n == p@.len(),
            n <= s.len(),
            k <= s.len() - n,
            last_occurrence(s@, p@) == last_occurrence_from(s@, p@, k as int),
        decreases k,
    {
        let cand = sub_vec(s, k, k + n);
        if crate::text::chars_eq_str(&cand, p) {
            assert(occurs_at(s@, p@, k as int));
            return Some(k);
        }
        assert(!occurs_at(s@, p@, k as int));
        if k == 0 {
            assert(last_occurrence_from(s@, p@, -1) == -1);
            return None;
        }
        k -= 1;
    }
}

pub fn split_slash_exec(s: &[char]) -> (r: Vec<String>)
    ensures
        string_views(r@) == split_slash(s@),
    decreases s.len(),
{
    proof {
        crate::text::lemma_first_index(s@, '/');
    }
    match find_char(s, '/') {
        Some(i) => {
            let head = sub_vec(s, 0, i);
            let tail = sub_vec(s, i + 1, s.len());
            let rest = split_slash_exec(&tail);
            let mut out: Vec<String> = Vec::new();
            out.push(string_of(&head));
            let mut j: usize = 0;
            while j < rest.len()
                invariant
                    j <= rest@.len(),
                    out@.len() == j + 1,
                    out@[0]@ == head@,
                    forall|t: int| 0 <= t < j ==> #[trigger] out@[t + 1]@ == rest@[t]@,
                decreases rest@.len() - j,
            {
                let piece = string_of(&chars_of(rest[j].as_str()));
                out.push(piece);
                j += 1;
            }
            assert(tail@ =~= s@.skip(i + 1));
            assert(head@ =~= s@.take(i as int));
            assert(string_views(out@) =~= seq![head@] + string_views(rest@)) by {
                assert forall|t: int| 0 <= t < out@.len() implies #[trigger] string_views(out@)[t] == (
                seq![head@] + string_views(rest@))[t] by {
                    if t > 0 {
                        assert(out@[(t - 1) + 1]@ == rest@[t - 1]@);
                    }
                }
            }
            out
        },
        None => {
            let mut out: Vec<String> = Vec::new();
            out.push(string_of(s));
            assert(string_views(out@) =~= seq![s@]);
            out
        },
    }
}

/// The owner part and base folder segments of a relationships part name.
pub fn relationship_owner_and_base(part_uri: &str) -> (r: Option<(Option<String>, Vec<String>)>)
    ensures
        owner_and_base_view(r) == owner_and_base(part_uri@),
{
    let uri = chars_of(part_uri);
    let package_rels = chars_of("_rels/.rels");
    if chars_eq_ignore_case(&uri, &package_rels) {
        let empty: Vec<String> = Vec::new();
        let r = Some((None, empty));
        assert(owner_and_base_view(r).unwrap().1 =~= Seq::<Seq<char>>::empty());
        return r;
    }
    let sep_len = "/_rels/".unicode_len();
    let i = match last_occurrence_exec(&uri, "/_rels/") {
        Some(i) => i,
        None => return None,
    };
    proof {
        reveal_strlit("/_rels/");
    }
    assert(sep_len == 7);
    let parent = sub_vec(&uri, 0, i);
    let rel = sub_vec(&uri, i + 7, uri.len());
    assert(parent@ =~= uri@.take(i as int));
    assert(rel@ =~= uri@.skip(i + 7));
    if !ends_with_str(&rel, ".rels") {
        return None;
    }
    proof {
        reveal_strlit(".rels");
    }
    let owner = sub_vec(&rel, 0, rel.len() - 5);
    assert(owner@ =~= rel@.take(rel@.len() - 5));
    if parent.len() == 0 || owner.len() == 0 || find_char(&owner, '/').is_some() {
        return None;
    }
    let mut owner_uri = parent.clone();
    owner_uri.push('/');
    let mut k: usize = 0;
    let ghost prefix = owner_uri@;
    while k < owner.len()
        invariant
            k <= owner@.len(),
            owner_uri@ == prefix + owner@.subrange(0, k as int),
        decreases owner@.len() - k,
    {
        owner_uri.push(owner[k]);
        k += 1;
    }
    assert(owner@.subrange(0, owner@.len() as int) =~= owner@);
    let base = split_slash_exec(&parent);
    let r = Some((Some(string_of(&owner_uri)), base));
    assert(owner_uri@ =~= parent@ + seq!['/'] + owner@);
    r
}


/// A part's name as the kind rules read it: without leading slashes, in
/// lower case.
pub open spec fn folded_part_name(name: Seq<char>) -> Seq<char> {
    lower(name.skip(leading_slashes(name) as int))
}

/// Where a part lies decides its kind, whatever its content type: a part
/// under `xl/embeddings/` is an embedded object, under `xl/macrosheets/` an
/// XLM macro sheet, under `xl/dialogsheets/` a dialog sheet, under
/// `xl/activeX/` or `xl/ctrlProps/` an ActiveX control, under `customUI/` a
/// custom UI part; `xl/vbaProject.bin` is a VBA project and `xl/vbaData.xml`
/// VBA data (names compared without leading slashes and in lower case).
pub proof fn lemma_part_folders_give_kinds(name: Seq<char>, content_type: Option<Seq<char>>)
    ensures
        starts_with(folded_part_name(name), "xl/embeddings/"@) ==> part_kinds(name, content_type).contains(
            ActiveContentKind::EmbeddedObject,
        ),
        starts_with(folded_part_name(name), "xl/macrosheets/"@) ==> part_kinds(name, content_type).contains(
            ActiveContentKind::XlmMacroSheet,
        ),
        starts_with(folded_part_name(name), "xl/dialogsheets/"@) ==> part_kinds(name, content_type).contains(
            ActiveContentKind::DialogSheet,
        ),
        starts_with(folded_part_name(name), "xl/activex/"@) || starts_with(folded_part_name(name), "xl/ctrlprops/"@)
            ==> part_kinds(name, content_type).contains(ActiveContentKind::ActiveXControl),
        starts_with(folded_part_name(name), "customui/"@) ==> part_kinds(name, content_type).contains(
            ActiveContentKind::CustomUi,
        ),
        folded_part_name(name) == "xl/vbaproject.bin"@ ==> part_kinds(name, content_type).contains(
            ActiveContentKind::VbaProject,
        ),
        folded_part_name(name) == "xl/vbadata.xml"@ ==> part_kinds(name, content_type).contains(
            ActiveContentKind::VbaData,
        ),
{
}

} // verus!
