//! Download bookkeeping: file names, extensions, and the report of a batch.
use crate::model::{DownloadReq, OutcomeView, SaveOutcome, SaveReport};
use crate::text::{
    ascii_lower, before_char, chars_eq, chars_of, concat, copy, has_infix, has_suffix, lowercase,
    contains, ends_with, owned, part_before, slice, string_of,
};
use vstd::prelude::*;

verus! {

// ----------------------------------------------------------------------------
// File names
// ----------------------------------------------------------------------------

/// Whether `c` may stay in a file name as it is.
pub open spec fn is_safe(c: char) -> bool {
    ('a' <= c && c <= 'z') || ('A' <= c && c <= 'Z') || ('0' <= c && c <= '9') || c == '-' || c
        == '_'
}

/// `c` itself when it is safe, else a dash.
pub open spec fn safe_char(c: char) -> char {
    if is_safe(c) {
        c
    } else {
        '-'
    }
}

/// The non-empty dash-free runs of `s`, joined by single dashes.
pub open spec fn dash_words(s: Seq<char>) -> Seq<char>
    decreases s.len(),
{
    if s.len() == 0 {
        Seq::empty()
    } else {
        let p = dash_words(s.drop_last());
        let c = s.last();
        if c == '-' {
            p
        } else if p.len() > 0 && s.drop_last().last() == '-' {
            p.push('-').push(c)
        } else {
            p.push(c)
        }
    }
}

/// At most the first `n` characters of `s`.
pub open spec fn at_most(s: Seq<char>, n: nat) -> Seq<char> {
    if s.len() <= n {
        s
    } else {
        s.take(n as int)
    }
}

/// `s` as a filesystem-safe fragment: unsafe characters become dashes, runs of
/// dashes collapse, leading and trailing dashes go, and at most 60 characters
/// are kept.
pub open spec fn sanitized(s: Seq<char>) -> Seq<char> {
    at_most(dash_words(s.map_values(|c: char| safe_char(c))), 60)
}

/// The name under which an image is saved: the sanitised title (or the source
/// id when that is empty), the source id, the sanitised item id when there is
/// one, and the extension.
pub open spec fn file_name(title: Seq<char>, source: Seq<char>, id: Seq<char>, ext: Seq<char>) -> Seq<
    char,
> {
    let t = sanitized(title);
    let base = if t.len() == 0 {
        source
    } else {
        t
    };
    let idp = sanitized(id);
    if idp.len() == 0 {
        base + "-"@ + source + "."@ + ext
    } else {
        base + "-"@ + source + "-"@ + idp + "."@ + ext
    }
}

/// No dash at the start and no two dashes in a row.
pub open spec fn tidy_dashes(s: Seq<char>) -> bool {
    &&& (s.len() > 0 ==> s[0] != '-')
    &&& forall|i: int| 0 <= i < s.len() - 1 ==> !(#[trigger] s[i] == '-' && s[i + 1] == '-')
}

/// Every character is safe.
pub open spec fn all_safe(s: Seq<char>) -> bool {
    forall|i: int| 0 <= i < s.len() ==> is_safe(#[trigger] s[i])
}

proof fn lemma_dash_words_shape(s: Seq<char>)
    requires
        all_safe(s),
    ensures
        tidy_dashes(dash_words(s)),
        all_safe(dash_words(s)),
        dash_words(s).len() > 0 ==> dash_words(s).last() != '-',
    decreases s.len(),
{
    if s.len() > 0 {
        let s1 = s.drop_last();
        assert forall|i: int| 0 <= i < s1.len() implies is_safe(#[trigger] s1[i]) by {
            assert(s1[i] == s[i]);
        }
        lemma_dash_words_shape(s1);
        let p = dash_words(s1);
        let c = s.last();
        assert(is_safe(s[s.len() - 1]));
        if c == '-' {
        } else if p.len() > 0 && s1.last() == '-' {
            let q = p.push('-').push(c);
            assert(q[q.len() - 2] == '-');
            assert forall|i: int| 0 <= i < q.len() - 1 implies !(#[trigger] q[i] == '-' && q[i
                + 1] == '-') by {
                if i < p.len() - 1 {
                    assert(q[i] == p[i] && q[i + 1] == p[i + 1]);
                } else if i == p.len() - 1 {
                    assert(q[i] == p.last());
                }
            }
            assert forall|i: int| 0 <= i < q.len() implies is_safe(#[trigger] q[i]) by {
                if i < p.len() {
                    assert(q[i] == p[i]);
                }
            }
        } else {
            let q = p.push(c);
            assert forall|i: int| 0 <= i < q.len() - 1 implies !(#[trigger] q[i] == '-' && q[i
                + 1] == '-') by {
                if i < p.len() - 1 {
                    assert(q[i] == p[i] && q[i + 1] == p[i + 1]);
                }
            }
            assert forall|i: int| 0 <= i < q.len() implies is_safe(#[trigger] q[i]) by {
                if i < p.len() {
                    assert(q[i] == p[i]);
                }
            }
        }
    }
}

proof fn lemma_dash_words_tidy(s: Seq<char>)
    requires
        tidy_dashes(s),
    ensures
        dash_words(s) == if s.len() > 0 && s.last() == '-' {
            s.drop_last()
        } else {
            s
        },
    decreases s.len(),
{
    if s.len() > 0 {
        let s1 = s.drop_last();
        assert forall|i: int| 0 <= i < s1.len() - 1 implies !(#[trigger] s1[i] == '-' && s1[i
            + 1] == '-') by {
            assert(s1[i] == s[i] && s1[i + 1] == s[i + 1]);
        }
        if s1.len() > 0 {
            assert(s1[0] == s[0]);
        }
        lemma_dash_words_tidy(s1);
        let c = s.last();
        if c == '-' {
            if s1.len() > 0 {
                assert(!(s[s.len() - 2] == '-' && s[s.len() - 1] == '-'));
            }
        } else if s1.len() == 0 {
            assert(s =~= seq![c]);
        } else if s1.last() == '-' {
            assert(s1.len() >= 2);
            assert(s1.drop_last().push('-').push(c) =~= s);
        } else {
            assert(s1.push(c) =~= s);
        }
    }
}

/// What `sanitize` produces holds only safe characters (ASCII letters and
/// digits, `-` and `_`), never starts with a dash, never holds two dashes in
/// a row, and is at most 60 characters long.
pub proof fn law_sanitized_shape(s: Seq<char>)
    ensures
        all_safe(sanitized(s)),
        tidy_dashes(sanitized(s)),
        sanitized(s).len() <= 60,
{
    let m = s.map_values(|c: char| safe_char(c));
    assert forall|i: int| 0 <= i < m.len() implies is_safe(#[trigger] m[i]) by {
        assert(m[i] == safe_char(s[i]));
    }
    lemma_dash_words_shape(m);
    let w = dash_words(m);
    let t = sanitized(s);
    if w.len() > 60 {
        assert forall|i: int| 0 <= i < t.len() - 1 implies !(#[trigger] t[i] == '-' && t[i + 1]
            == '-') by {
            assert(t[i] == w[i] && t[i + 1] == w[i + 1]);
        }
        assert forall|i: int| 0 <= i < t.len() implies is_safe(#[trigger] t[i]) by {
            assert(t[i] == w[i]);
        }
    }
}

/// Sanitising what `sanitize` produced changes nothing, unless the cut to 60
/// characters left a trailing dash (which a second pass removes).
pub proof fn law_sanitize_idempotent(s: Seq<char>)
    requires
        !has_suffix(sanitized(s), "-"@),
    ensures
        sanitized(sanitized(s)) == sanitized(s),
{
    reveal_strlit("-");
    let t = sanitized(s);
    law_sanitized_shape(s);
    let m = t.map_values(|c: char| safe_char(c));
    assert(m =~= t);
    if t.len() > 0 {
        assert("-"@ =~= seq!['-']);
        assert(t.skip(t.len() - 1) =~= seq![t.last()]);
        assert(t.last() != '-');
    }
    lemma_dash_words_tidy(t);
}

fn safe(c: char) -> (r: char)
    ensures
        r == safe_char(c),
{
    if ('a' <= c && c <= 'z') || ('A' <= c && c <= 'Z') || ('0' <= c && c <= '9') || c == '-' || c
        == '_' {
        c
    } else {
        '-'
    }
}

/// Turn arbitrary text into a filesystem-safe fragment.
pub fn sanitize(s: &str) -> (r: String)
    ensures
        r@ == sanitized(s@),
{
    string_of(&sanitize_chars(&chars_of(s)))
}

fn sanitize_chars(s: &Vec<char>) -> (r: Vec<char>)
    ensures
        r@ == sanitized(s@),
{
    let ghost m = s@.map_values(|c: char| safe_char(c));
    let mut out: Vec<char> = Vec::new();
    let mut prev_dash = false;
    let mut i: usize = 0;
    assert(m.take(0) =~= Seq::<char>::empty());
    while i < s.len()
        invariant
            i <= s.len(),
            m == s@.map_values(|c: char| safe_char(c)),
            out@ == dash_words(m.take(i as int)),
            i > 0 ==> prev_dash == (m[i - 1] == '-'),
        decreases s.len() - i,
    {
        let c = safe(s[i]);
        assert(m.take(i + 1).drop_last() =~= m.take(i as int));
        assert(m.take(i + 1).last() == c);
        if i > 0 {
            assert(m.take(i + 1).drop_last().last() == m[i - 1]);
        }
        if c == '-' {
            prev_dash = true;
        } else {
            if out.len() > 0 && prev_dash {
                out.push('-');
            }
            out.push(c);
            prev_dash = false;
        }
        i = i + 1;
    }
    assert(m.take(s.len() as int) =~= m);
    let n: usize = if out.len() <= 60 {
        out.len()
    } else {
        60
    };
    let r = slice(&out, 0, n);
    assert(r@ =~= at_most(out@, 60));
    r
}

/// Builds [`file_name`] for a download request and an extension.
pub fn file_name_for(req: &DownloadReq, ext: &str) -> (r: String)
    ensures
        r@ == file_name(req.title@, req.source@, req.id@, ext@),
{
    let t = sanitize_chars(&chars_of(req.title.as_str()));
    let source = chars_of(req.source.as_str());
    let base = if t.len() == 0 {
        copy(&source)
    } else {
        t
    };
    let idp = sanitize_chars(&chars_of(req.id.as_str()));
    let mut n = concat(&base, &chars_of("-"));
    n = concat(&n, &source);
    if idp.len() > 0 {
        n = concat(&n, &chars_of("-"));
        n = concat(&n, &idp);
    }
    n = concat(&n, &chars_of("."));
    n = concat(&n, &chars_of(ext));
    string_of(&n)
}

// ----------------------------------------------------------------------------
// Extensions
// ----------------------------------------------------------------------------

/// The extension a content type names, if it names one of the known formats.
pub open spec fn ext_for_type(content_type: Seq<char>) -> Option<Seq<char>> {
    let l = ascii_lower(content_type);
    if has_infix(l, "png"@) {
        Some("png"@)
    } else if has_infix(l, "webp"@) {
        Some("webp"@)
    } else if has_infix(l, "gif"@) {
        Some("gif"@)
    } else if has_infix(l, "svg"@) {
        Some("svg"@)
    } else if has_infix(l, "jpeg"@) || has_infix(l, "jpg"@) {
        Some("jpg"@)
    } else {
        None
    }
}

/// The extension the path of `url` (before any `?`) ends with, `jpg` when
/// it ends with none of the known ones.
pub open spec fn ext_for_url(url: Seq<char>) -> Seq<char> {
    let l = ascii_lower(before_char(url, '?'));
    if has_suffix(l, ".png"@) {
        "png"@
    } else if has_suffix(l, ".webp"@) {
        "webp"@
    } else if has_suffix(l, ".gif"@) {
        "gif"@
    } else if has_suffix(l, ".svg"@) {
        "svg"@
    } else {
        "jpg"@
    }
}

/// A file extension from a content type, falling back to the URL, then `jpg`.
pub open spec fn guessed_ext(content_type: Option<Seq<char>>, url: Seq<char>) -> Seq<char> {
    match content_type {
        Some(ct) => match ext_for_type(ct) {
            Some(e) => e,
            None => ext_for_url(url),
        },
        None => ext_for_url(url),
    }
}

/// The static extension for `ext`: one of the known ones, else `jpg`.
pub open spec fn static_ext(ext: Seq<char>) -> Seq<char> {
    if ext == "png"@ {
        "png"@
    } else if ext == "webp"@ {
        "webp"@
    } else if ext == "gif"@ {
        "gif"@
    } else if ext == "svg"@ {
        "svg"@
    } else {
        "jpg"@
    }
}

/// One of the extensions images are saved with.
pub open spec fn is_known_ext(e: Seq<char>) -> bool {
    e == "png"@ || e == "webp"@ || e == "gif"@ || e == "svg"@ || e == "jpg"@
}

/// `ext_static` always gives a known extension, and gives back a known
/// extension unchanged.
pub proof fn law_static_ext(e: Seq<char>)
    ensures
        is_known_ext(static_ext(e)),
        is_known_ext(e) ==> static_ext(e) == e,
{
    reveal_strlit("png");
    reveal_strlit("webp");
    reveal_strlit("gif");
    reveal_strlit("svg");
    reveal_strlit("jpg");
}

/// `guess_ext` always gives a known extension, which `ext_static` keeps.
pub proof fn law_guessed_ext_known(content_type: Option<Seq<char>>, url: Seq<char>)
    ensures
        is_known_ext(guessed_ext(content_type, url)),
        static_ext(guessed_ext(content_type, url)) == guessed_ext(content_type, url),
{
    law_static_ext(guessed_ext(content_type, url));
}

fn type_ext(content_type: &str) -> (r: Option<&'static str>)
    ensures
        r.deep_view() == ext_for_type(content_type@),
{
    let l = lowercase(&chars_of(content_type));
    if contains(&l, &chars_of("png")) {
        Some("png")
    } else if contains(&l, &chars_of("webp")) {
        Some("webp")
    } else if contains(&l, &chars_of("gif")) {
        Some("gif")
    } else if contains(&l, &chars_of("svg")) {
        Some("svg")
    } else if contains(&l, &chars_of("jpeg")) || contains(&l, &chars_of("jpg")) {
        Some("jpg")
    } else {
        None
    }
}

fn url_ext(url: &str) -> (r: &'static str)
    ensures
        r@ == ext_for_url(url@),
{
    let l = lowercase(&part_before(&chars_of(url), '?'));
    if ends_with(&l, &chars_of(".png")) {
        "png"
    } else if ends_with(&l, &chars_of(".webp")) {
        "webp"
    } else if ends_with(&l, &chars_of(".gif")) {
        "gif"
    } else if ends_with(&l, &chars_of(".svg")) {
        "svg"
    } else {
        "jpg"
    }
}

/// Guess a file extension from a content-type, falling back to the URL, then jpg.
pub fn guess_ext(content_type: Option<&str>, url: &str) -> (r: &'static str)
    ensures
        r@ == guessed_ext(content_type.deep_view(), url@),
{
    match content_type {
        Some(ct) => match type_ext(ct) {
            Some(e) => e,
            None => url_ext(url),
        },
        None => url_ext(url),
    }
}

/// The static extension for `ext`.
pub fn ext_static(ext: &str) -> (r: &'static str)
    ensures
        r@ == static_ext(ext@),
{
    let e = chars_of(ext);
    if chars_eq(&e, &chars_of("png")) {
        "png"
    } else if chars_eq(&e, &chars_of("webp")) {
        "webp"
    } else if chars_eq(&e, &chars_of("gif")) {
        "gif"
    } else if chars_eq(&e, &chars_of("svg")) {
        "svg"
    } else {
        "jpg"
    }
}

// ----------------------------------------------------------------------------
// Outcomes and reports
// ----------------------------------------------------------------------------

/// The step at which saving one image failed.
#[derive(Clone, Copy, Debug, PartialEq, Eq)]
pub enum SaveStage {
    /// The request for the image failed or was answered with an error status.
    Download,
    /// The body of the answer could not be read.
    Read,
    /// The file could not be written.
    Write,
}

/// How a failure at `stage` is introduced in its outcome.
pub open spec fn stage_prefix(stage: SaveStage) -> Seq<char> {
    match stage {
        SaveStage::Download => "download failed: "@,
        SaveStage::Read => "read failed: "@,
        SaveStage::Write => "write failed: "@,
    }
}

/// The number of successful outcomes.
pub open spec fn count_ok(os: Seq<OutcomeView>) -> nat
    decreases os.len(),
{
    if os.len() == 0 {
        0
    } else {
        count_ok(os.drop_last()) + if os.last().ok {
            1nat
        } else {
            0nat
        }
    }
}

/// Counting the saved images: an empty batch has none saved, and one more
/// outcome adds one exactly when it succeeded. So a batch of failures has
/// none saved, and a batch of successes has every image saved.
pub proof fn law_count_ok(os: Seq<OutcomeView>, o: OutcomeView)
    ensures
        count_ok(Seq::<OutcomeView>::empty()) == 0,
        count_ok(os.push(o)) == count_ok(os) + if o.ok {
            1nat
        } else {
            0nat
        },
        count_ok(os) <= os.len(),
        (forall|k: int| 0 <= k < os.len() ==> !(#[trigger] os[k]).ok) ==> count_ok(os) == 0,
        (forall|k: int| 0 <= k < os.len() ==> (#[trigger] os[k]).ok) ==> count_ok(os) == os.len(),
{
    assert(os.push(o).drop_last() =~= os);
    lemma_count_ok_bounds(os);
}

proof fn lemma_count_ok_bounds(os: Seq<OutcomeView>)
    ensures
        count_ok(os) <= os.len(),
        (forall|k: int| 0 <= k < os.len() ==> !(#[trigger] os[k]).ok) ==> count_ok(os) == 0,
        (forall|k: int| 0 <= k < os.len() ==> (#[trigger] os[k]).ok) ==> count_ok(os) == os.len(),
    decreases os.len(),
{
    if os.len() > 0 {
        let p = os.drop_last();
        lemma_count_ok_bounds(p);
        assert forall|k: int| 0 <= k < p.len() implies #[trigger] p[k] == os[k] by {}
        if forall|k: int| 0 <= k < os.len() ==> !(#[trigger] os[k]).ok {
            assert(!os[os.len() - 1].ok);
            assert forall|k: int| 0 <= k < p.len() implies !(#[trigger] p[k]).ok by {
                assert(p[k] == os[k]);
            }
        }
        if forall|k: int| 0 <= k < os.len() ==> (#[trigger] os[k]).ok {
            assert(os[os.len() - 1].ok);
            assert forall|k: int| 0 <= k < p.len() implies (#[trigger] p[k]).ok by {
                assert(p[k] == os[k]);
            }
        }
    }
}

impl SaveOutcome {
    /// The outcome of an image saved at `path`.
    pub fn saved(id: &str, path: &str) -> (r: SaveOutcome)
        ensures
            r@ == (OutcomeView { id: id@, ok: true, detail: path@ }),
    {
        SaveOutcome { id: owned(id), ok: true, detail: owned(path) }
    }

    /// The outcome of an image that failed at `stage` with `error`.
    pub fn failed(id: &str, stage: SaveStage, error: &str) -> (r: SaveOutcome)
        ensures
            r@ == (OutcomeView { id: id@, ok: false, detail: stage_prefix(stage) + error@ }),
    {
        let prefix = match stage {
            SaveStage::Download => "download failed: ",
            SaveStage::Read => "read failed: ",
            SaveStage::Write => "write failed: ",
        };
        let detail = concat(&chars_of(prefix), &chars_of(error));
        SaveOutcome { id: owned(id), ok: false, detail: string_of(&detail) }
    }
}

impl SaveReport {
    /// The report of a batch: how many images were saved and how many failed.
    pub fn from_outcomes(outcomes: Vec<SaveOutcome>, folder: String) -> (r: SaveReport)
        ensures
            r.saved == count_ok(outcomes.deep_view()),
            r.saved + r.failed == outcomes.len(),
            r.folder@ == folder@,
            r.outcomes@ == outcomes@,
    {
        let ghost os = outcomes.deep_view();
        let mut saved: usize = 0;
        let mut i: usize = 0;
        assert(os.take(0) =~= Seq::<OutcomeView>::empty());
        while i < outcomes.len()
            invariant
                i <= outcomes.len(),
                os == outcomes.deep_view(),
                saved == count_ok(os.take(i as int)),
                saved <= i,
            decreases outcomes.len() - i,
        {
            assert(os.take(i + 1).drop_last() =~= os.take(i as int));
            assert(os.take(i + 1).last() == outcomes@[i as int]@);
            if outcomes[i].ok {
                saved = saved + 1;
            }
            i = i + 1;
        }
        assert(os.take(outcomes.len() as int) =~= os);
        let failed = outcomes.len() - saved;
        SaveReport { saved, failed, folder, outcomes }
    }

    /// The report of a batch whose destination folder could not be created:
    /// every requested image counts as failed, and one outcome says why.
    pub fn folder_failed(requested: usize, folder: String, error: &str) -> (r: SaveReport)
        ensures
            r.saved == 0,
            r.failed == requested,
            r.folder@ == folder@,
            r.outcomes.deep_view() == seq![
                OutcomeView {
                    id: Seq::empty(),
                    ok: false,
                    detail: "cannot create folder: "@ + error@,
                },
            ],
    {
        let detail = concat(&chars_of("cannot create folder: "), &chars_of(error));
        let mut outcomes: Vec<SaveOutcome> = Vec::new();
        outcomes.push(SaveOutcome { id: String::new(), ok: false, detail: string_of(&detail) });
        assert(outcomes.deep_view() =~= seq![
            OutcomeView {
                id: Seq::empty(),
                ok: false,
                detail: "cannot create folder: "@ + error@,
            },
        ]);
        SaveReport { saved: 0, failed: requested, folder, outcomes }
    }
}

} // verus!
