//! Reviews of a goal: the rounds they come in and the files they leave.
use crate::path::is_entry_name;
use crate::text::{
    chars_of, decimal, digits_value, law_zero_padded_denotes, law_zero_padded_is_as_long_as_needed,
    law_zero_padded_is_read_back, matches_at, parse_u32, parsed_u32, push_decimal,
    push_signed_decimal, push_zero_padded, signed_decimal, zero_padded,
};
use vstd::prelude::*;

verus! {

/// What starts the name of a review file.
pub const ROUND_PREFIX: &'static str = "round-";

/// What ends the name of a review file.
pub const ROUND_SUFFIX: &'static str = "-review-result.md";

/// One thing that a review found. The confidence is in the form in which it is
/// shown, a decimal fraction.
#[derive(Debug, PartialEq, Eq)]
pub struct ReviewFinding {
    pub title: String,
    pub body: String,
    pub confidence_score: String,
    pub priority: i32,
    pub absolute_file_path: String,
    pub start_line: u32,
    pub end_line: u32,
}

/// What a review came to.
#[derive(Debug, PartialEq, Eq)]
pub struct ReviewOutput {
    pub findings: Vec<ReviewFinding>,
    pub overall_correctness: String,
    pub overall_explanation: String,
    pub overall_confidence_score: String,
}

/// The name of the file of a round.
pub open spec fn review_file_name_text(round: nat) -> Seq<char> {
    ROUND_PREFIX@ + zero_padded(round, 4) + ROUND_SUFFIX@
}

/// The round that a file name tells: the number between the prefix and the
/// suffix of review files.
pub open spec fn round_of_name(name: Seq<char>) -> Option<u32> {
    let start = ROUND_PREFIX@.len() as int;
    let end = name.len() - ROUND_SUFFIX@.len();
    if ROUND_PREFIX@.is_prefix_of(name) && start <= end && ROUND_SUFFIX@.is_suffix_of(name) {
        parsed_u32(name.subrange(start, end))
    } else {
        None
    }
}

/// The highest round that any of the names tells, or 0.
pub open spec fn highest_round(names: Seq<String>) -> nat
    decreases names.len(),
{
    if names.len() == 0 {
        0
    } else {
        let earlier = highest_round(names.drop_last());
        match round_of_name(names.last()@) {
            Some(round) if round > earlier => round as nat,
            _ => earlier,
        }
    }
}

/// The round after the highest one; no round follows the last one that 32 bits
/// can count, which then comes again.
pub open spec fn round_after(names: Seq<String>) -> nat {
    if highest_round(names) < u32::MAX {
        highest_round(names) + 1
    } else {
        u32::MAX as nat
    }
}

/// The section on one finding.
pub open spec fn finding_text(finding: ReviewFinding) -> Seq<char> {
    "\n### ["@ + signed_decimal(finding.priority as int) + "] "@ + finding.title@ + "\n\n"@
        + finding.body@ + "\n\n- File: `"@ + finding.absolute_file_path@ + "`\n- Lines: "@
        + decimal(finding.start_line as nat) + "-"@ + decimal(finding.end_line as nat)
        + "\n- Confidence: `"@ + finding.confidence_score@ + "`\n"@
}

/// The sections on all findings, in their order.
pub open spec fn findings_text(findings: Seq<ReviewFinding>) -> Seq<char>
    decreases findings.len(),
{
    if findings.len() == 0 {
        seq![]
    } else {
        findings_text(findings.drop_last()) + finding_text(findings.last())
    }
}

/// The file of a review.
pub open spec fn review_file_text(round: nat, output: ReviewOutput) -> Seq<char> {
    "# Review Round "@ + zero_padded(round, 4) + "\n\n- Overall correctness: `"@
        + output.overall_correctness@ + "`\n- Overall confidence: `"@
        + output.overall_confidence_score@ + "`\n\n## Explanation\n\n"@
        + output.overall_explanation@ + "\n"@ + if output.findings@.len() == 0 {
        "\n## Findings\n\nNone.\n"@
    } else {
        "\n## Findings\n"@ + findings_text(output.findings@)
    }
}

/// The round that a file name tells.
pub fn parse_review_round(name: &str) -> (round: Option<u32>)
    ensures
        round == round_of_name(name@),
{
    let chars: Vec<char> = chars_of(name);
    let prefix: Vec<char> = chars_of(ROUND_PREFIX);
    let suffix: Vec<char> = chars_of(ROUND_SUFFIX);
    if chars.len() < prefix.len() || !matches_at(&chars, 0, &prefix) {
        return None;
    }
    let rest: usize = chars.len() - prefix.len();
    if rest < suffix.len() {
        return None;
    }
    let end: usize = chars.len() - suffix.len();
    if !matches_at(&chars, end, &suffix) {
        return None;
    }
    parse_u32(&chars, prefix.len(), end)
}

/// The round of the next review, given the names of the files there are.
pub fn next_review_round(names: &Vec<String>) -> (round: u32)
    ensures
        round == round_after(names@),
{
    let mut max_round: u32 = 0;
    let mut i: usize = 0;
    while i < names.len()
        invariant
            i <= names@.len(),
            max_round == highest_round(names@.take(i as int)),
        decreases names@.len() - i,
    {
        proof {
            assert(names@.take(i + 1).drop_last() =~= names@.take(i as int));
            assert(names@.take(i + 1).last() == names@[i as int]);
        }
        match parse_review_round(names[i].as_str()) {
            Some(round) => {
                if round > max_round {
                    max_round = round;
                }
            },
            None => {},
        }
        i = i + 1;
    }
    proof {
        assert(names@.take(i as int) =~= names@);
    }
    max_round.saturating_add(1)
}

/// The name of the file of a round.
pub fn review_file_name(round: u32) -> (name: String)
    ensures
        name@ == review_file_name_text(round as nat),
{
    let mut name: String = ROUND_PREFIX.to_owned();
    push_zero_padded(&mut name, round as u64, 4);
    name.append(ROUND_SUFFIX);
    name
}

/// Appends the section on one finding.
fn push_finding(rendered: &mut String, finding: &ReviewFinding)
    ensures
        final(rendered)@ == old(rendered)@ + finding_text(*finding),
{
    let mut section: String = "\n### [".to_owned();
    push_signed_decimal(&mut section, finding.priority as i64);
    section.append("] ");
    section.append(finding.title.as_str());
    section.append("\n\n");
    section.append(finding.body.as_str());
    section.append("\n\n- File: `");
    section.append(finding.absolute_file_path.as_str());
    section.append("`\n- Lines: ");
    push_decimal(&mut section, finding.start_line as u64);
    section.append("-");
    push_decimal(&mut section, finding.end_line as u64);
    section.append("\n- Confidence: `");
    section.append(finding.confidence_score.as_str());
    section.append("`\n");
    rendered.append(section.as_str());
}

/// The file of a review.
pub fn render_review_output_file(round: u32, output: &ReviewOutput) -> (rendered: String)
    ensures
        rendered@ == review_file_text(round as nat, *output),
{
    let mut rendered: String = "# Review Round ".to_owned();
    push_zero_padded(&mut rendered, round as u64, 4);
    rendered.append("\n\n- Overall correctness: `");
    rendered.append(output.overall_correctness.as_str());
    rendered.append("`\n- Overall confidence: `");
    rendered.append(output.overall_confidence_score.as_str());
    rendered.append("`\n\n## Explanation\n\n");
    rendered.append(output.overall_explanation.as_str());
    rendered.append("\n");
    let ghost head = rendered@;
    if output.findings.len() == 0 {
        rendered.append("\n## Findings\n\nNone.\n");
    } else {
        rendered.append("\n## Findings\n");
        let mut i: usize = 0;
        proof {
            assert(findings_text(output.findings@.take(0)) =~= seq![]);
        }
        while i < output.findings.len()
            invariant
                i <= output.findings@.len(),
                rendered@ == head + ("\n## Findings\n"@ + findings_text(
                    output.findings@.take(i as int),
                )),
            decreases output.findings@.len() - i,
        {
            proof {
                let upto = output.findings@.take(i + 1);
                assert(upto.drop_last() =~= output.findings@.take(i as int));
                assert(upto.last() == output.findings@[i as int]);
            }
            push_finding(&mut rendered, &output.findings[i]);
            i = i + 1;
        }
        proof {
            assert(output.findings@.take(i as int) =~= output.findings@);
        }
    }
    rendered
}

/// The name of the file of a round tells the round.
pub proof fn law_review_file_name_tells_its_round(round: u32)
    ensures
        round_of_name(review_file_name_text(round as nat)) == Some(round),
{
    let name = review_file_name_text(round as nat);
    let number = zero_padded(round as nat, 4);
    let start = ROUND_PREFIX@.len() as int;
    let end = name.len() - ROUND_SUFFIX@.len();
    assert(name.subrange(0, start) =~= ROUND_PREFIX@);
    assert(name.subrange(end, name.len() as int) =~= ROUND_SUFFIX@);
    assert(name.subrange(start, end) =~= number);
    law_zero_padded_is_read_back(round, 4);
}

/// No name tells a round above the highest one.
proof fn lemma_highest_round(names: Seq<String>, i: int, round: u32)
    requires
        0 <= i < names.len(),
        round_of_name(names[i]@) == Some(round),
    ensures
        round <= highest_round(names),
    decreases names.len(),
{
    if i < names.len() - 1 {
        lemma_highest_round(names.drop_last(), i, round);
    }
}

/// The next round comes after every round that a file name tells, and its file
/// is not there yet, except where the last round that can be counted was used.
pub proof fn law_next_round_is_new(names: Seq<String>)
    requires
        highest_round(names) < u32::MAX,
    ensures
        forall|i: int|
            0 <= i < names.len() ==> (round_of_name((#[trigger] names[i])@) matches Some(round)
                ==> round < round_after(names)),
        forall|i: int|
            0 <= i < names.len() ==> (#[trigger] names[i])@ != review_file_name_text(
                round_after(names),
            ),
{
    let next = round_after(names);
    law_review_file_name_tells_its_round(next as u32);
    assert forall|i: int| 0 <= i < names.len() implies (round_of_name((#[trigger] names[i])@)
        matches Some(round) ==> round < next) && names[i]@ != review_file_name_text(next) by {
        if let Some(round) = round_of_name(names[i]@) {
            lemma_highest_round(names, i, round);
        }
    }
}

/// Once the review of a round was recorded, the next one gets the round after
/// it, except where the last round that can be counted was used.
pub proof fn law_rounds_count_up(names: Seq<String>, recorded: String)
    requires
        recorded@ == review_file_name_text(round_after(names)),
        round_after(names) < u32::MAX,
    ensures
        round_after(names.push(recorded)) == round_after(names) + 1,
{
    law_review_file_name_tells_its_round(round_after(names) as u32);
    assert(names.push(recorded).drop_last() =~= names);
}

/// The name of the file of a round is the name of an entry of a directory.
pub proof fn law_review_file_name_is_an_entry_name(round: nat)
    ensures
        is_entry_name(review_file_name_text(round)),
{
    reveal_strlit("round-");
    reveal_strlit("-review-result.md");
    law_zero_padded_denotes(round, 4);
    let name = review_file_name_text(round);
    let number = zero_padded(round, 4);
    assert forall|i: int| 0 <= i < name.len() implies #[trigger] name[i] != '/' by {
        let start = ROUND_PREFIX@.len() as int;
        if i < start {
            assert(name[i] == ROUND_PREFIX@[i]);
        } else if i < start + number.len() {
            assert(name[i] == number[i - start]);
        } else {
            assert(name[i] == ROUND_SUFFIX@[i - start - number.len()]);
        }
    }
}

/// A name tells a round exactly where it is `round-`, a number that can be read,
/// and `-review-result.md`; it is the round of that number.
pub proof fn law_names_tell_rounds(name: Seq<char>, number: Seq<char>, round: u32)
    ensures
        round_of_name("round-"@ + number + "-review-result.md"@) == parsed_u32(number),
        round_of_name(name) == Some(round) ==> exists|part: Seq<char>| #[trigger]
            parsed_u32(part) == Some(round) && name == "round-"@ + part + "-review-result.md"@,
{
    reveal_strlit("round-");
    reveal_strlit("-review-result.md");
    let prefix = "round-"@;
    let suffix = "-review-result.md"@;
    let full = prefix + number + suffix;
    let end = full.len() - suffix.len();
    assert(full.subrange(0, prefix.len() as int) =~= prefix);
    assert(full.subrange(end, full.len() as int) =~= suffix);
    assert(full.subrange(prefix.len() as int, end) =~= number);
    if round_of_name(name) == Some(round) {
        let stop = name.len() - suffix.len();
        let part = name.subrange(prefix.len() as int, stop);
        assert(name =~= name.subrange(0, prefix.len() as int) + part + name.subrange(
            stop,
            name.len() as int,
        ));
        assert(parsed_u32(part) == Some(round));
    }
}

/// The file of a round is called `round-`, the round in at least four digits, and
/// `-review-result.md`.
pub proof fn law_review_file_name_form(round: nat)
    ensures
        exists|number: Seq<char>|
            {
                &&& review_file_name_text(round) == "round-"@ + number + "-review-result.md"@
                &&& #[trigger] digits_value(number) == round
                &&& number.len() >= 4
                &&& forall|i: int| 0 <= i < number.len() ==> '0' <= #[trigger] number[i] <= '9'
                &&& number.len() > 4 ==> number[0] != '0'
            },
{
    law_zero_padded_denotes(round, 4);
    law_zero_padded_is_as_long_as_needed(round, 4);
    let number = zero_padded(round, 4);
    assert(digits_value(number) == round);
}

/// The highest round is one that a name tells, and no name tells a higher one; it
/// is 0 where no name tells one.
pub proof fn law_highest_round_is_told(names: Seq<String>)
    ensures
        forall|i: int|
            0 <= i < names.len() ==> (#[trigger] round_of_name(names[i]@) matches Some(round)
                ==> round <= highest_round(names)),
        highest_round(names) > 0 ==> exists|i: int|
            0 <= i < names.len() && (#[trigger] round_of_name(names[i]@) matches Some(round)
                && round == highest_round(names)),
    decreases names.len(),
{
    assert forall|i: int| 0 <= i < names.len() implies (#[trigger] round_of_name(names[i]@)
        matches Some(round) ==> round <= highest_round(names)) by {
        if let Some(round) = round_of_name(names[i]@) {
            lemma_highest_round(names, i, round);
        }
    }
    if names.len() > 0 && highest_round(names) > 0 {
        let before = names.drop_last();
        law_highest_round_is_told(before);
        if highest_round(names) == highest_round(before) {
            let i = choose|i: int|
                0 <= i < before.len() && (#[trigger] round_of_name(before[i]@) matches Some(round)
                    && round == highest_round(before));
            assert(names[i] == before[i]);
            assert(round_of_name(names[i]@) is Some);
        } else {
            assert(round_of_name(names[names.len() - 1]@) is Some);
        }
    }
}

/// The next round is one more than the highest that a name tells, and the first
/// one where no name tells any. The last round that 32 bits can count comes again.
pub proof fn law_next_round_follows_the_highest(names: Seq<String>, highest: int)
    requires
        0 <= highest < names.len(),
        round_of_name(names[highest]@) is Some,
        forall|i: int|
            0 <= i < names.len() ==> (#[trigger] round_of_name(names[i]@) matches Some(round)
                ==> round <= round_of_name(names[highest]@)->0),
    ensures
        round_of_name(names[highest]@)->0 < u32::MAX ==> round_after(names) == round_of_name(
            names[highest]@,
        )->0 + 1,
        round_of_name(names[highest]@)->0 == u32::MAX ==> round_after(names) == u32::MAX,
{
    law_highest_round_is_told(names);
}

/// Where no name tells a round, the next one is the first.
pub proof fn law_rounds_start_with_one(names: Seq<String>)
    requires
        forall|i: int| 0 <= i < names.len() ==> #[trigger] round_of_name(names[i]@) is None,
    ensures
        round_after(names) == 1,
{
    law_highest_round_is_told(names);
}

/// The fixed parts of the section on a finding.
pub struct FindingParts {
    pub before_priority: Seq<char>,
    pub before_title: Seq<char>,
    pub before_body: Seq<char>,
    pub before_file: Seq<char>,
    pub before_start: Seq<char>,
    pub before_end: Seq<char>,
    pub before_confidence: Seq<char>,
    pub end: Seq<char>,
}

impl FindingParts {
    /// Whether the section on every finding is made of these parts, with what the
    /// finding holds in full between them.
    pub open spec fn make_every_section(self) -> bool {
        forall|finding: ReviewFinding| #[trigger]
            finding_text(finding) == self.before_priority + signed_decimal(finding.priority as int)
                + self.before_title + finding.title@ + self.before_body + finding.body@
                + self.before_file + finding.absolute_file_path@ + self.before_start + decimal(
                finding.start_line as nat,
            ) + self.before_end + decimal(finding.end_line as nat) + self.before_confidence
                + finding.confidence_score@ + self.end
    }
}

/// Whatever the finding, the section on it is made of the same fixed parts, with
/// all that it holds in full between them.
pub proof fn law_findings_are_made_of_fixed_parts()
    ensures
        exists|parts: FindingParts| #[trigger] parts.make_every_section(),
{
    let parts = FindingParts {
        before_priority: "\n### ["@,
        before_title: "] "@,
        before_body: "\n\n"@,
        before_file: "\n\n- File: `"@,
        before_start: "`\n- Lines: "@,
        before_end: "-"@,
        before_confidence: "\n- Confidence: `"@,
        end: "`\n"@,
    };
    assert(parts.make_every_section());
}

/// The sections on findings come in their order, one for each: those on two lists
/// put together are those on the one and then those on the other, and that on one
/// finding is its own.
pub proof fn law_every_finding_has_its_section(
    first: Seq<ReviewFinding>,
    others: Seq<ReviewFinding>,
    finding: ReviewFinding,
)
    ensures
        findings_text(first + others) == findings_text(first) + findings_text(others),
        findings_text(seq![finding]) == finding_text(finding),
        findings_text(seq![]) == Seq::<char>::empty(),
    decreases others.len(),
{
    reveal_with_fuel(findings_text, 2);
    assert(seq![finding].drop_last() =~= seq![]);
    assert(findings_text(seq![finding]) =~= finding_text(finding));
    if others.len() == 0 {
        assert(first + others =~= first);
        assert(findings_text(first) + findings_text(others) =~= findings_text(first));
    } else {
        law_every_finding_has_its_section(first, others.drop_last(), finding);
        assert((first + others).drop_last() =~= first + others.drop_last());
        assert(findings_text(first + others) =~= findings_text(first) + findings_text(others));
    }
}

/// The fixed parts of the file of a review.
pub struct ReviewFileParts {
    pub before_round: Seq<char>,
    pub before_correctness: Seq<char>,
    pub before_confidence: Seq<char>,
    pub before_explanation: Seq<char>,
    pub before_findings: Seq<char>,
    pub without_findings: Seq<char>,
}

impl ReviewFileParts {
    /// Whether the file of every review is made of these parts, with the round and
    /// all that the review holds in full between them.
    pub open spec fn make_every_file(self) -> bool {
        forall|round: nat, output: ReviewOutput| #[trigger]
            review_file_text(round, output) == self.before_round + zero_padded(round, 4)
                + self.before_correctness + output.overall_correctness@ + self.before_confidence
                + output.overall_confidence_score@ + self.before_explanation
                + output.overall_explanation@ + if output.findings@.len() == 0 {
                self.without_findings
            } else {
                self.before_findings + findings_text(output.findings@)
            }
    }
}

/// Whatever the review, its file is made of the same fixed parts, with the round,
/// the verdict, the confidence, the explanation and the sections on all findings
/// in full between them.
pub proof fn law_review_files_are_made_of_fixed_parts()
    ensures
        exists|parts: ReviewFileParts| #[trigger] parts.make_every_file(),
{
    let parts = ReviewFileParts {
        before_round: "# Review Round "@,
        before_correctness: "\n\n- Overall correctness: `"@,
        before_confidence: "`\n- Overall confidence: `"@,
        before_explanation: "`\n\n## Explanation\n\n"@,
        before_findings: "\n"@ + "\n## Findings\n"@,
        without_findings: "\n"@ + "\n## Findings\n\nNone.\n"@,
    };
    assert forall|round: nat, output: ReviewOutput| #[trigger]
        review_file_text(round, output) == parts.before_round + zero_padded(round, 4)
            + parts.before_correctness + output.overall_correctness@ + parts.before_confidence
            + output.overall_confidence_score@ + parts.before_explanation
            + output.overall_explanation@ + if output.findings@.len() == 0 {
            parts.without_findings
        } else {
            parts.before_findings + findings_text(output.findings@)
        } by {
        assert(review_file_text(round, output) =~= parts.before_round + zero_padded(round, 4)
            + parts.before_correctness + output.overall_correctness@ + parts.before_confidence
            + output.overall_confidence_score@ + parts.before_explanation
            + output.overall_explanation@ + if output.findings@.len() == 0 {
            parts.without_findings
        } else {
            parts.before_findings + findings_text(output.findings@)
        });
    }
    assert(parts.make_every_file());
}

} // verus!
