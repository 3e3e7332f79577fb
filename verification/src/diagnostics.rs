//! Bounded page metadata and opt-in selector diagnostics for hidden captures.
use crate::text::{
    char_utf8_width, chars_of, copy_range, json_quoted, push_decimal, push_json_string, push_str,
    string_of, utf8_len, utf8_width,
};
use vstd::prelude::*;

verus! {

/// Byte budget for a title in a capture report.
pub const MAX_DIAGNOSTIC_TITLE_BYTES: usize = 512;

/// How many `--diagnostic-selector` options a run may give.
pub const MAX_PAGE_DIAGNOSTIC_SELECTORS: usize = 16;

/// Byte budget for one diagnostic selector.
pub const MAX_PAGE_DIAGNOSTIC_SELECTOR_BYTES: usize = 256;

/// Number of leading characters whose UTF-8 encoding fits in `budget` bytes.
pub open spec fn fitting_chars(s: Seq<char>, budget: nat) -> nat
    decreases s.len(),
{
    if s.len() == 0 {
        0
    } else if utf8_width(s[0]) <= budget {
        1 + fitting_chars(s.drop_first(), (budget - utf8_width(s[0])) as nat)
    } else {
        0
    }
}

/// The longest prefix that fits in `budget` bytes, and whether anything was cut.
pub open spec fn spec_bounded_prefix(s: Seq<char>, budget: nat) -> (Seq<char>, bool) {
    let k = fitting_chars(s, budget);
    (s.subrange(0, k as int), k < s.len())
}

proof fn lemma_fitting_chars(s: Seq<char>, budget: nat)
    ensures
        fitting_chars(s, budget) <= s.len(),
        utf8_len(s.subrange(0, fitting_chars(s, budget) as int)) <= budget,
        fitting_chars(s, budget) < s.len() ==> utf8_len(
            s.subrange(0, fitting_chars(s, budget) + 1 as int),
        ) > budget,
    decreases s.len(),
{
    if s.len() > 0 {
        let w = utf8_width(s[0]);
        if w <= budget {
            let rest = s.drop_first();
            lemma_fitting_chars(rest, (budget - w) as nat);
            let k = fitting_chars(rest, (budget - w) as nat);
            lemma_utf8_len_prepend(s[0], rest.subrange(0, k as int));
            assert(s.subrange(0, k + 1 as int) =~= seq![s[0]] + rest.subrange(0, k as int));
            if k < rest.len() {
                lemma_utf8_len_prepend(s[0], rest.subrange(0, k + 1 as int));
                assert(s.subrange(0, k + 2 as int) =~= seq![s[0]] + rest.subrange(0, k + 1 as int));
            }
        } else {
            assert(s.subrange(0, 1) =~= seq![s[0]]);
            assert(seq![s[0]].drop_last() =~= Seq::<char>::empty());
            assert(s.subrange(0, 0) =~= Seq::<char>::empty());
        }
    } else {
        assert(s.subrange(0, 0) =~= Seq::<char>::empty());
    }
}

proof fn lemma_utf8_len_prepend(c: char, s: Seq<char>)
    ensures
        utf8_len(seq![c] + s) == utf8_width(c) + utf8_len(s),
    decreases s.len(),
{
    if s.len() == 0 {
        assert((seq![c] + s) =~= seq![c]);
        assert(seq![c].drop_last() =~= Seq::<char>::empty());
        assert(seq![c].last() == c);
        assert(utf8_len(seq![c]) == utf8_len(Seq::<char>::empty()) + utf8_width(c));
    } else {
        lemma_utf8_len_prepend(c, s.drop_last());
        assert((seq![c] + s).drop_last() =~= seq![c] + s.drop_last());
        assert((seq![c] + s).last() == s.last());
        assert(utf8_len(seq![c] + s) == utf8_len(seq![c] + s.drop_last()) + utf8_width(s.last()));
    }
}

proof fn lemma_prefix_len_grows(s: Seq<char>, j: int, k: int)
    requires
        0 <= j <= k <= s.len(),
    ensures
        utf8_len(s.subrange(0, j)) <= utf8_len(s.subrange(0, k)),
    decreases k - j,
{
    if j < k {
        lemma_prefix_len_grows(s, j, k - 1);
        assert(s.subrange(0, k).drop_last() =~= s.subrange(0, k - 1));
    }
}

/// A bounded title is the longest prefix of the title that fits the budget:
/// it is a prefix, it fits, every longer prefix exceeds the budget, and it is
/// marked as cut exactly when it is shorter than the title.
pub proof fn lemma_bounded_prefix_is_longest(s: Seq<char>, budget: nat)
    ensures
        ({
            let (p, cut) = spec_bounded_prefix(s, budget);
            &&& p.len() <= s.len()
            &&& p == s.subrange(0, p.len() as int)
            &&& utf8_len(p) <= budget
            &&& forall|k: int| p.len() < k <= s.len() ==> utf8_len(#[trigger] s.subrange(0, k)) > budget
            &&& cut <==> p.len() < s.len()
        }),
{
    lemma_fitting_chars(s, budget);
    let n = fitting_chars(s, budget) as int;
    assert forall|k: int| n < k <= s.len() implies utf8_len(#[trigger] s.subrange(0, k)) > budget by {
        lemma_prefix_len_grows(s, n + 1, k);
    }
}

/// The longest prefix of `text` within `budget` UTF-8 bytes, cut on a character
/// boundary, and whether it was cut.
pub fn bounded_utf8_prefix(text: &str, budget: usize) -> (r: (String, bool))
    ensures
        (r.0@, r.1) == spec_bounded_prefix(text@, budget as nat),
{
    let v = chars_of(text);
    let mut i: usize = 0;
    let mut left: usize = budget;
    assert(v@.subrange(0, v@.len() as int) =~= v@);
    while i < v.len() && char_utf8_width(v[i]) <= left
        invariant
            i <= v.len(),
            v@ == text@,
            left <= budget,
            fitting_chars(v@, budget as nat) == i + fitting_chars(v@.subrange(i as int, v@.len() as int), left as nat),
        decreases v.len() - i,
    {
        proof {
            let rest = v@.subrange(i as int, v@.len() as int);
            assert(rest.drop_first() =~= v@.subrange(i + 1, v@.len() as int));
        }
        left = left - char_utf8_width(v[i]);
        i = i + 1;
    }
    proof {
        let rest = v@.subrange(i as int, v@.len() as int);
        if i < v.len() {
            assert(rest[0] == v@[i as int]);
        }
    }
    (string_of(copy_range(v.as_slice(), 0, i).as_slice()), i < v.len())
}

/// A title cut to the capture budget, and whether it was cut.
pub fn bounded_title(title: &str) -> (r: (String, bool))
    ensures
        (r.0@, r.1) == spec_bounded_prefix(title@, MAX_DIAGNOSTIC_TITLE_BYTES as nat),
{
    bounded_utf8_prefix(title, MAX_DIAGNOSTIC_TITLE_BYTES)
}

/// The renderer-reported document title, kept apart from the browser tab title.
pub struct PageTitles {
    pub document_title: Option<String>,
    pub document_title_truncated: bool,
}

/// `true` or `false`.
pub open spec fn flag_text(b: bool) -> Seq<char> {
    if b {
        "true"@
    } else {
        "false"@
    }
}

/// Compact JSON object with the keys in sorted order.
pub open spec fn titles_json(document: Option<Seq<char>>, document_truncated: bool, browser: Seq<char>) -> Seq<char> {
    let (title, truncated) = spec_bounded_prefix(browser, MAX_DIAGNOSTIC_TITLE_BYTES as nat);
    "{\"browser_title\":"@ + json_quoted(title) + ",\"browser_title_truncated\":"@ + flag_text(
        truncated,
    ) + ",\"document_title\":"@ + match document {
        Some(d) => json_quoted(d),
        None => "null"@,
    } + ",\"document_title_truncated\":"@ + flag_text(document_truncated) + "}"@
}

fn push_flag(out: &mut Vec<char>, b: bool)
    ensures
        final(out)@ == old(out)@ + flag_text(b),
{
    if b {
        push_str(out, "true");
    } else {
        push_str(out, "false");
    }
}

impl PageTitles {
    /// No document title seen yet.
    pub fn new() -> (t: Self)
        ensures
            t.document_title is None,
            !t.document_title_truncated,
    {
        PageTitles { document_title: None, document_title_truncated: false }
    }

    /// Remembers the latest document title, bounded to the capture budget.
    pub fn record_document_title(&mut self, title: &str)
        ensures
            final(self).document_title is Some,
            (final(self).document_title.unwrap()@, final(self).document_title_truncated)
                == spec_bounded_prefix(title@, MAX_DIAGNOSTIC_TITLE_BYTES as nat),
    {
        let (bounded, truncated) = bounded_title(title);
        self.document_title = Some(bounded);
        self.document_title_truncated = truncated;
    }

    /// Both titles as a JSON object; the browser title is bounded the same way.
    pub fn json(&self, browser_title: &str) -> (j: String)
        ensures
            j@ == titles_json(
                match self.document_title {
                    Some(d) => Some(d@),
                    None => None,
                },
                self.document_title_truncated,
                browser_title@,
            ),
    {
        let (title, truncated) = bounded_title(browser_title);
        let title_chars = chars_of(title.as_str());
        let mut v: Vec<char> = Vec::new();
        let out = &mut v;
        push_str(out, "{\"browser_title\":");
        assert(out@ =~= "{\"browser_title\":"@);
        push_json_string(out, title_chars.as_slice());
        push_str(out, ",\"browser_title_truncated\":");
        push_flag(out, truncated);
        push_str(out, ",\"document_title\":");
        match &self.document_title {
            Some(d) => {
                let dc = chars_of(d.as_str());
                push_json_string(out, dc.as_slice());
            },
            None => push_str(out, "null"),
        }
        push_str(out, ",\"document_title_truncated\":");
        push_flag(out, self.document_title_truncated);
        push_str(out, "}");
        string_of(v.as_slice())
    }
}

/// Why a list of diagnostic selectors is refused, if it is.
pub open spec fn selector_count_error(selectors: Seq<Seq<char>>) -> Option<Seq<char>> {
    if selectors.len() > MAX_PAGE_DIAGNOSTIC_SELECTORS {
        Some("at most 16 --diagnostic-selector options are allowed"@)
    } else if exists|i: int|
        0 <= i < selectors.len() && utf8_len(#[trigger] selectors[i]) > MAX_PAGE_DIAGNOSTIC_SELECTOR_BYTES {
        Some("--diagnostic-selector values cannot exceed 256 UTF-8 bytes"@)
    } else {
        None
    }
}

/// Checks the number and size of diagnostic selectors.
pub fn validate_selector_count(selectors: &Vec<String>) -> (r: Result<(), String>)
    ensures
        match r {
            Ok(()) => selector_count_error(Seq::new(selectors@.len(), |i: int| selectors@[i]@)) is None,
            Err(e) => selector_count_error(Seq::new(selectors@.len(), |i: int| selectors@[i]@)) == Some(e@),
        },
{
    let ghost views = Seq::new(selectors@.len(), |i: int| selectors@[i]@);
    if selectors.len() > MAX_PAGE_DIAGNOSTIC_SELECTORS {
        return Err(string_of(chars_of("at most 16 --diagnostic-selector options are allowed").as_slice()));
    }
    let mut i: usize = 0;
    while i < selectors.len()
        invariant
            i <= selectors.len() <= MAX_PAGE_DIAGNOSTIC_SELECTORS,
            views == Seq::new(selectors@.len(), |i: int| selectors@[i]@),
            forall|k: int| 0 <= k < i ==> utf8_len(#[trigger] views[k]) <= MAX_PAGE_DIAGNOSTIC_SELECTOR_BYTES,
        decreases selectors.len() - i,
    {
        let c = chars_of(selectors[i].as_str());
        if !crate::options::input::short_enough(c.as_slice(), MAX_PAGE_DIAGNOSTIC_SELECTOR_BYTES) {
            assert(utf8_len(views[i as int]) > MAX_PAGE_DIAGNOSTIC_SELECTOR_BYTES);
            return Err(string_of(chars_of("--diagnostic-selector values cannot exceed 256 UTF-8 bytes").as_slice()));
        }
        i = i + 1;
    }
    Ok(())
}

/// The media pipeline's state as the renderer reports it.
pub struct MediaRuntimeReport {
    pub active: bool,
    pub playing: bool,
    pub ended: bool,
    pub current_time_100ns: u64,
    pub duration_100ns: u64,
    pub backend: String,
    pub mime_type: String,
    pub video_codec: String,
    pub audio_codec: String,
    pub encoded_queue_bytes: u64,
    pub encoded_queue_limit_bytes: u64,
    pub decoded_frame_queue_depth: u64,
    pub decoded_frame_queue_limit: u64,
    pub frames_submitted: u64,
    pub dropped_frames: u64,
    pub width: u32,
    pub height: u32,
    pub failure: Option<String>,
}

/// The media report as a compact JSON object, `null` without one.
pub open spec fn media_json(m: Option<MediaRuntimeReport>) -> Seq<char> {
    match m {
        None => "null"@,
        Some(m) => "{\"active\":"@ + flag_text(m.active) + ",\"playing\":"@ + flag_text(m.playing)
            + ",\"ended\":"@ + flag_text(m.ended) + ",\"current_time_seconds\":"@
            + crate::text::rounded3(m.current_time_100ns as nat, 10_000_000) + ",\"duration_seconds\":"@
            + crate::text::rounded3(m.duration_100ns as nat, 10_000_000) + ",\"backend\":"@ + json_quoted(
            m.backend@,
        ) + ",\"mime_type\":"@ + json_quoted(m.mime_type@) + ",\"video_codec\":"@ + json_quoted(
            m.video_codec@,
        ) + ",\"audio_codec\":"@ + json_quoted(m.audio_codec@) + ",\"encoded_queue_bytes\":"@
            + crate::text::decimal(m.encoded_queue_bytes as nat) + ",\"encoded_queue_limit_bytes\":"@
            + crate::text::decimal(m.encoded_queue_limit_bytes as nat) + ",\"decoded_frame_queue_depth\":"@
            + crate::text::decimal(m.decoded_frame_queue_depth as nat) + ",\"decoded_frame_queue_limit\":"@
            + crate::text::decimal(m.decoded_frame_queue_limit as nat) + ",\"frames_submitted\":"@
            + crate::text::decimal(m.frames_submitted as nat) + ",\"dropped_frames\":"@
            + crate::text::decimal(m.dropped_frames as nat) + ",\"width\":"@ + crate::text::decimal(
            m.width as nat,
        ) + ",\"height\":"@ + crate::text::decimal(m.height as nat) + ",\"failure\":"@ + (match m.failure {
            Some(f) => json_quoted(f@),
            None => "null"@,
        }) + "}"@,
    }
}

fn push_json_text(out: &mut Vec<char>, s: &String)
    ensures
        final(out)@ == old(out)@ + json_quoted(s@),
{
    let v = chars_of(s.as_str());
    push_json_string(out, v.as_slice());
}

/// The media report for a benchmark capture.
pub fn media_runtime_json(media: Option<&MediaRuntimeReport>) -> (j: String)
    ensures
        j@ == media_json(match media {
            Some(m) => Some(*m),
            None => None::<MediaRuntimeReport>,
        }),
{
    let m = match media {
        None => return crate::text::string_from("null"),
        Some(m) => m,
    };
    let mut v: Vec<char> = Vec::new();
    let out = &mut v;
    push_str(out, "{\"active\":");
    assert(out@ =~= "{\"active\":"@);
    push_flag(out, m.active);
    push_str(out, ",\"playing\":");
    push_flag(out, m.playing);
    push_str(out, ",\"ended\":");
    push_flag(out, m.ended);
    push_str(out, ",\"current_time_seconds\":");
    crate::text::push_rounded3(out, m.current_time_100ns, 10_000_000);
    push_str(out, ",\"duration_seconds\":");
    crate::text::push_rounded3(out, m.duration_100ns, 10_000_000);
    push_str(out, ",\"backend\":");
    push_json_text(out, &m.backend);
    push_str(out, ",\"mime_type\":");
    push_json_text(out, &m.mime_type);
    push_str(out, ",\"video_codec\":");
    push_json_text(out, &m.video_codec);
    push_str(out, ",\"audio_codec\":");
    push_json_text(out, &m.audio_codec);
    push_str(out, ",\"encoded_queue_bytes\":");
    push_decimal(out, m.encoded_queue_bytes);
    push_str(out, ",\"encoded_queue_limit_bytes\":");
    push_decimal(out, m.encoded_queue_limit_bytes);
    push_str(out, ",\"decoded_frame_queue_depth\":");
    push_decimal(out, m.decoded_frame_queue_depth);
    push_str(out, ",\"decoded_frame_queue_limit\":");
    push_decimal(out, m.decoded_frame_queue_limit);
    push_str(out, ",\"frames_submitted\":");
    push_decimal(out, m.frames_submitted);
    push_str(out, ",\"dropped_frames\":");
    push_decimal(out, m.dropped_frames);
    push_str(out, ",\"width\":");
    push_decimal(out, m.width as u64);
    push_str(out, ",\"height\":");
    push_decimal(out, m.height as u64);
    push_str(out, ",\"failure\":");
    match &m.failure {
        Some(f) => push_json_text(out, f),
        None => push_str(out, "null"),
    }
    push_str(out, "}");
    string_of(v.as_slice())
}

} // verus!
