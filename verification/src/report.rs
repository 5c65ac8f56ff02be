//! The match reporter: given a compiled pattern and one input line, it
//! enumerates all non-overlapping matches and renders the report — a
//! summary with the match count, one line per match with every literal
//! occurrence of the matched text emphasized, and, on request, the
//! participating capture groups of each match.
//!
//! Emphasis is applied by substring replacement, as the summary renderer
//! always did: if the matched text also occurs elsewhere in the input,
//! those occurrences are emphasized too. This position-insensitive
//! highlighting is a documented quirk of the rendering policy, kept on
//! purpose and pinned down by `rendered_line`.

use vstd::prelude::*;
use vstd::string::StringExecFns;
use crate::matcher::MatchRec;
use crate::matcher::Pattern;
use crate::matcher::find_all;
use crate::matcher::found_matches;
use crate::text::dec_rep;
use crate::text::emphasize;
use crate::text::emphasized;
use crate::text::replace_all;
use crate::text::replace_all_spec;
use crate::text::usize_to_string;

verus! {

/// The mathematical shape of one printed capture group: its 1-based
/// index, its text, and the full rendered line.
pub struct CaptureLineV {
    pub index: nat,
    pub text: Seq<char>,
    pub line: Seq<char>,
}

/// The mathematical shape of one rendered match: the echoed input with
/// emphasis, and the capture listing (empty when captures are not shown).
pub struct MatchEntryV {
    pub rendered: Seq<char>,
    pub captures: Seq<CaptureLineV>,
}

/// The mathematical shape of a whole report.
pub struct ReportLineV {
    pub count: nat,
    pub summary: Seq<char>,
    pub entries: Seq<MatchEntryV>,
}

/// One printed capture group of one match.
pub struct CaptureLine {
    pub index: usize,
    pub text: String,
    pub line: String,
}

impl View for CaptureLine {
    type V = CaptureLineV;

    open spec fn view(&self) -> CaptureLineV {
        CaptureLineV { index: self.index as nat, text: self.text@, line: self.line@ }
    }
}

/// The views of a row of capture lines.
pub open spec fn lines_view(lines: Seq<CaptureLine>) -> Seq<CaptureLineV> {
    lines.map_values(|c: CaptureLine| c@)
}

/// One rendered match.
pub struct MatchEntry {
    pub rendered: String,
    pub captures: Vec<CaptureLine>,
}

impl View for MatchEntry {
    type V = MatchEntryV;

    open spec fn view(&self) -> MatchEntryV {
        MatchEntryV { rendered: self.rendered@, captures: lines_view(self.captures@) }
    }
}

/// The views of a row of match entries.
pub open spec fn entries_view(entries: Seq<MatchEntry>) -> Seq<MatchEntryV> {
    entries.map_values(|e: MatchEntry| e@)
}

/// The rendered report for one input line. The summary states the match
/// count; `entries` holds one rendering per match, in match order.
pub struct ReportLine {
    pub count: usize,
    pub summary: String,
    pub entries: Vec<MatchEntry>,
}

impl View for ReportLine {
    type V = ReportLineV;

    open spec fn view(&self) -> ReportLineV {
        ReportLineV {
            count: self.count as nat,
            summary: self.summary@,
            entries: entries_view(self.entries@),
        }
    }
}

/// The summary's opening when at least one match was found: a green
/// check mark.
pub open spec fn success_prefix() -> Seq<char> {
    "  \u{1b}[32m\u{2713}\u{1b}[0m Found "@
}

/// The summary's opening when no match was found: a red cross.
pub open spec fn failure_prefix() -> Seq<char> {
    "  \u{1b}[31m\u{2717}\u{1b}[0m Found "@
}

/// The summary line for a report of `count` matches: a failure marker
/// and "0 matches", or a success marker and the count with singular
/// wording for exactly one match.
pub open spec fn summary_spec(count: nat) -> Seq<char> {
    if count == 0 {
        failure_prefix() + dec_rep(count) + " matches"@
    } else if count == 1 {
        success_prefix() + dec_rep(count) + " match:"@
    } else {
        success_prefix() + dec_rep(count) + " matches:"@
    }
}

/// Renders the summary line for `count` matches.
pub fn summary_line(count: usize) -> (r: String)
    ensures
        r@ == summary_spec(count as nat),
{
    let mut r: String = if count == 0 {
        "  \u{1b}[31m\u{2717}\u{1b}[0m Found ".to_owned()
    } else {
        "  \u{1b}[32m\u{2713}\u{1b}[0m Found ".to_owned()
    };
    let num = usize_to_string(count);
    r.append(num.as_str());
    if count == 0 {
        r.append(" matches");
    } else if count == 1 {
        r.append(" match:");
    } else {
        r.append(" matches:");
    }
    proof {
        assert(r@ =~= summary_spec(count as nat));
    }
    r
}

/// The echoed input for one match: an indent, then the whole input with
/// every literal occurrence of the matched text emphasized — also a
/// coincidental occurrence away from the match's own position.
pub open spec fn rendered_line(input: Seq<char>, match_text: Seq<char>) -> Seq<char> {
    "      "@ + replace_all_spec(input, match_text, emphasized(match_text))
}

/// The printed line for capture group `index` with text `text`.
pub open spec fn capture_line_text(index: nat, text: Seq<char>) -> Seq<char> {
    "        "@ + dec_rep(index) + ") "@ + text
}

/// The capture listing of one match: one line per participating group,
/// in declaration order, indexed from `base`; a group that did not
/// participate prints nothing, and later groups keep their indices.
pub open spec fn capture_lines_spec(groups: Seq<Option<Seq<char>>>, base: nat) -> Seq<CaptureLineV>
    decreases groups.len(),
{
    if groups.len() == 0 {
        Seq::empty()
    } else {
        capture_lines_spec(groups.drop_last(), base) + (match groups.last() {
            Some(t) => seq![
                (CaptureLineV {
                    index: (base + groups.len() - 1) as nat,
                    text: t,
                    line: capture_line_text((base + groups.len() - 1) as nat, t),
                }),
            ],
            None => Seq::empty(),
        })
    }
}

/// Renders the capture listing of one match, groups indexed from 1.
pub fn capture_lines(groups: &Vec<Option<String>>) -> (r: Vec<CaptureLine>)
    ensures
        lines_view(r@) == capture_lines_spec(groups.deep_view(), 1),
{
    let ghost gs = groups.deep_view();
    let mut r: Vec<CaptureLine> = Vec::new();
    let mut j: usize = 0;
    proof {
        assert(gs.take(0) =~= Seq::<Option<Seq<char>>>::empty());
        assert(lines_view(r@) =~= capture_lines_spec(gs.take(0), 1));
    }
    while j < groups.len()
        invariant
            j <= groups@.len(),
            gs == groups.deep_view(),
            gs.len() == groups@.len(),
            lines_view(r@) == capture_lines_spec(gs.take(j as int), 1),
        decreases groups@.len() - j,
    {
        proof {
            assert(gs.take(j + 1).drop_last() =~= gs.take(j as int));
            assert(gs.take(j + 1).last() == gs[j as int]);
        }
        match &groups[j] {
            Some(t) => {
                let index = j + 1;
                let mut line: String = "        ".to_owned();
                let num = usize_to_string(index);
                line.append(num.as_str());
                line.append(") ");
                line.append(t.as_str());
                proof {
                    assert(line@ =~= capture_line_text(index as nat, t@));
                }
                let text = t.clone();
                r.push(CaptureLine { index, text, line });
                proof {
                    assert(lines_view(r@) =~= capture_lines_spec(gs.take(j + 1), 1));
                }
            },
            None => {
                proof {
                    assert(lines_view(r@) =~= capture_lines_spec(gs.take(j + 1), 1));
                }
            },
        }
        j += 1;
    }
    proof {
        assert(gs.take(gs.len() as int) =~= gs);
    }
    r
}

/// The rendering of one match: the emphasized echo of the input and, if
/// `show_captures`, the match's capture listing.
pub open spec fn entry_spec(
    input: Seq<char>,
    m: (Seq<char>, Seq<Option<Seq<char>>>),
    show_captures: bool,
) -> MatchEntryV {
    MatchEntryV {
        rendered: rendered_line(input, m.0),
        captures: if show_captures {
            capture_lines_spec(m.1, 1)
        } else {
            Seq::empty()
        },
    }
}

/// The whole report over a found match row `ms`: the count is the row's
/// length, the summary is worded from that same count, and one entry is
/// rendered per match, in order.
pub open spec fn report_spec(
    input: Seq<char>,
    ms: Seq<(Seq<char>, Seq<Option<Seq<char>>>)>,
    show_captures: bool,
) -> ReportLineV {
    ReportLineV {
        count: ms.len(),
        summary: summary_spec(ms.len()),
        entries: ms.map_values(|m| entry_spec(input, m, show_captures)),
    }
}

/// Reports on one input line: enumerates all non-overlapping matches of
/// `pattern` in `input` and renders the summary, the per-match lines and,
/// if `show_captures`, each match's capture listing. The result is a
/// function of the pattern text, the input and the flag alone, and at
/// most `input` length + 1 entries are rendered, also when the pattern
/// matches the empty string.
pub fn report(pattern: &Pattern, input: &str, show_captures: bool) -> (r: ReportLine)
    ensures
        r@ == report_spec(input@, found_matches(pattern.text(), input@), show_captures),
        r@.entries.len() <= input@.len() + 1,
{
    let recs = find_all(pattern, input);
    let ghost ms = found_matches(pattern.text(), input@);
    let count = recs.len();
    let summary = summary_line(count);
    let mut entries: Vec<MatchEntry> = Vec::new();
    let mut k: usize = 0;
    while k < recs.len()
        invariant
            k <= recs@.len(),
            recs.deep_view() == ms,
            recs@.len() == ms.len(),
            entries@.len() == k,
            forall|i: int|
                0 <= i < k ==> entries@[i]@ == entry_spec(input@, ms[i], show_captures),
        decreases recs@.len() - k,
    {
        let rec: &MatchRec = &recs[k];
        proof {
            assert(ms[k as int] == rec.deep_view());
        }
        let emph = emphasize(rec.text.as_str());
        let body = replace_all(input, rec.text.as_str(), emph.as_str());
        let mut rendered: String = "      ".to_owned();
        rendered.append(body.as_str());
        proof {
            assert(rendered@ =~= rendered_line(input@, ms[k as int].0));
        }
        let captures: Vec<CaptureLine> = if show_captures {
            capture_lines(&rec.groups)
        } else {
            Vec::new()
        };
        proof {
            if !show_captures {
                assert(lines_view(captures@) =~= Seq::<CaptureLineV>::empty());
            }
        }
        entries.push(MatchEntry { rendered, captures });
        k += 1;
    }
    let r = ReportLine { count, summary, entries };
    proof {
        assert(entries_view(r.entries@) =~= report_spec(
            input@,
            ms,
            show_captures,
        ).entries);
    }
    r
}

/// Law: in every report, the count stated in the summary equals the
/// number of match entries rendered beneath it, and the summary is
/// worded from exactly that number.
pub proof fn lemma_summary_counts_entries(
    input: Seq<char>,
    ms: Seq<(Seq<char>, Seq<Option<Seq<char>>>)>,
    show_captures: bool,
)
    ensures
        report_spec(input, ms, show_captures).count == report_spec(
            input,
            ms,
            show_captures,
        ).entries.len(),
        report_spec(input, ms, show_captures).summary == summary_spec(
            report_spec(input, ms, show_captures).entries.len(),
        ),
{
}

/// Law: reporting is idempotent. A report holds no hidden state: two
/// reports of the same pattern text, the same input and the same flag
/// are identical.
pub proof fn lemma_report_idempotent(
    pattern_text: Seq<char>,
    input: Seq<char>,
    show_captures: bool,
    r1: ReportLineV,
    r2: ReportLineV,
)
    requires
        r1 == report_spec(input, found_matches(pattern_text, input), show_captures),
        r2 == report_spec(input, found_matches(pattern_text, input), show_captures),
    ensures
        r1 == r2,
{
}

/// Law: enumeration stays finite. Over any found match row of at most
/// `input` length + 1 matches — which the matcher guarantees by always
/// advancing, also past an empty match — the report renders exactly one
/// entry per match and so at most `input` length + 1 of them.
pub proof fn lemma_entries_bounded(
    input: Seq<char>,
    ms: Seq<(Seq<char>, Seq<Option<Seq<char>>>)>,
    show_captures: bool,
)
    requires
        ms.len() <= input.len() + 1,
    ensures
        report_spec(input, ms, show_captures).entries.len() <= input.len() + 1,
{
}

/// Whether some line of a capture listing carries the printed index
/// `index`.
pub open spec fn has_capture_index(lines: Seq<CaptureLineV>, index: nat) -> bool {
    exists|i: int| 0 <= i < lines.len() && lines[i].index == index
}

/// Whether a capture listing holds the full line for group `index` with
/// text `text`.
pub open spec fn has_capture_entry(lines: Seq<CaptureLineV>, index: nat, text: Seq<char>) -> bool {
    exists|i: int|
        0 <= i < lines.len() && lines[i] == (CaptureLineV {
            index,
            text,
            line: capture_line_text(index, text),
        })
}

/// Law: every index printed in a capture listing lies between `base` and
/// `base` + the number of declared groups - 1; no printed index ever
/// exceeds the group count.
pub proof fn lemma_capture_indices_in_range(groups: Seq<Option<Seq<char>>>, base: nat)
    ensures
        forall|i: int|
            0 <= i < capture_lines_spec(groups, base).len() ==> base <= #[trigger] capture_lines_spec(
                groups,
                base,
            )[i].index < base + groups.len(),
    decreases groups.len(),
{
    if groups.len() > 0 {
        lemma_capture_indices_in_range(groups.drop_last(), base);
        let lines = capture_lines_spec(groups, base);
        let front = capture_lines_spec(groups.drop_last(), base);
        assert forall|i: int| 0 <= i < lines.len() implies base <= (#[trigger] lines[i]).index
            < base + groups.len() by {
            if i < front.len() {
                assert(lines[i] == front[i]);
            } else {
                assert(lines[i].index == base + groups.len() - 1);
            }
        }
    }
}

/// Law: capture indices are stable. Group `k` (counted from 0, printed
/// as `base + k`) gets a line exactly when it participated, the line
/// shows its own text under its own index, and a sibling group's
/// non-participation neither removes the line nor shifts the index.
pub proof fn lemma_capture_index_stable(groups: Seq<Option<Seq<char>>>, base: nat, k: int)
    requires
        0 <= k < groups.len(),
    ensures
        groups[k] is Some ==> has_capture_entry(
            capture_lines_spec(groups, base),
            (base + k) as nat,
            groups[k]->0,
        ),
        groups[k] is None ==> !has_capture_index(capture_lines_spec(groups, base), (base + k) as nat),
    decreases groups.len(),
{
    let lines = capture_lines_spec(groups, base);
    let front = capture_lines_spec(groups.drop_last(), base);
    lemma_capture_indices_in_range(groups.drop_last(), base);
    if k == groups.len() - 1 {
        match groups[k] {
            Some(t) => {
                assert(lines[front.len() as int] == (CaptureLineV {
                    index: (base + k) as nat,
                    text: t,
                    line: capture_line_text((base + k) as nat, t),
                }));
            },
            None => {
                assert(lines =~= front);
            },
        }
    } else {
        lemma_capture_index_stable(groups.drop_last(), base, k);
        assert(groups.drop_last()[k] == groups[k]);
        assert(forall|i: int| 0 <= i < front.len() ==> lines[i] == front[i]);
        match groups[k] {
            Some(t) => {
                let i = choose|i: int|
                    0 <= i < front.len() && front[i] == (CaptureLineV {
                        index: (base + k) as nat,
                        text: t,
                        line: capture_line_text((base + k) as nat, t),
                    });
                assert(lines[i] == front[i]);
            },
            None => {
                assert forall|i: int| 0 <= i < lines.len() implies lines[i].index != (base
                    + k) as nat by {
                    if i < front.len() {
                        assert(lines[i] == front[i]);
                    } else {
                        assert(lines[i].index == base + groups.len() - 1);
                    }
                }
            },
        }
    }
}

} // verus!
