use vstd::prelude::*;

use crate::commit::schema::{message_of, CommitPlan, CommitSuggestion};
use crate::commit::dashed;
use crate::git::{bullet, bullet_line};
use crate::text::{decimal, decimal_string, is_blank, trim_str, trimmed, views};
use vstd::string::StringExecFns;

verus! {

/// One printed line of a commit plan, by the style it is printed in.
pub enum PlanLine {
    /// An empty line.
    Blank,
    /// A bold heading.
    Heading(String),
    /// The plan's strategy, in italics.
    Strategy(String),
    /// A commit message, in bold green.
    Message(String),
    /// A list item, plain.
    Item(String),
    /// A warning, in yellow.
    Note(String),
}

/// The content of a printed line.
pub enum LineView {
    Blank,
    Heading(Seq<char>),
    Strategy(Seq<char>),
    Message(Seq<char>),
    Item(Seq<char>),
    Note(Seq<char>),
}

/// The content of a printed line.
pub open spec fn line_view(l: PlanLine) -> LineView {
    match l {
        PlanLine::Blank => LineView::Blank,
        PlanLine::Heading(s) => LineView::Heading(s@),
        PlanLine::Strategy(s) => LineView::Strategy(s@),
        PlanLine::Message(s) => LineView::Message(s@),
        PlanLine::Item(s) => LineView::Item(s@),
        PlanLine::Note(s) => LineView::Note(s@),
    }
}

/// The contents of printed lines.
pub open spec fn lines_view(v: Seq<PlanLine>) -> Seq<LineView> {
    v.map_values(|l: PlanLine| line_view(l))
}

/// The lines of the commit with 1-based number `number`: a blank line, `Commit n`, the
/// message, then, each after a blank line, the body bullets under `Body:` when there is a
/// body, and the files under `Files:`.
pub open spec fn commit_block(number: nat, c: CommitSuggestion) -> Seq<LineView> {
    seq![
        LineView::Blank,
        LineView::Heading("Commit "@ + decimal(number)),
        LineView::Message(message_of(c)),
    ] + (if c.body@.len() > 0 {
        seq![LineView::Blank, LineView::Heading("Body:"@)] + views(c.body@).map_values(
            |l: Seq<char>| LineView::Item(bullet(l)),
        )
    } else {
        Seq::empty()
    }) + seq![LineView::Blank, LineView::Heading("Files:"@)] + views(c.files@).map_values(
        |p: Seq<char>| LineView::Item(dashed(p)),
    )
}

/// The blocks of the commits, numbered from 1.
pub open spec fn commit_blocks(commits: Seq<CommitSuggestion>) -> Seq<LineView>
    decreases commits.len(),
{
    if commits.len() == 0 {
        Seq::empty()
    } else {
        commit_blocks(commits.drop_last()) + commit_block(commits.len(), commits.last())
    }
}

/// The printed plan: a heading, the trimmed strategy when it is not blank, each commit's
/// block, and a note when the diff was truncated.
pub open spec fn plan_lines(plan: CommitPlan, diff_truncated: bool) -> Seq<LineView> {
    seq![LineView::Blank, LineView::Heading("Suggested commit plan:"@)] + (if trimmed(
        plan.strategy@,
    ).len() > 0 {
        seq![LineView::Strategy(trimmed(plan.strategy@))]
    } else {
        Seq::empty()
    }) + commit_blocks(plan.commits@) + (if diff_truncated {
        seq![
            LineView::Blank,
            LineView::Note("Note: diff was truncated before being sent to the model."@),
        ]
    } else {
        Seq::empty()
    })
}

fn push_line(out: &mut Vec<PlanLine>, l: PlanLine)
    ensures
        lines_view(final(out)@) == lines_view(old(out)@).push(line_view(l)),
{
    let ghost v = line_view(l);
    out.push(l);
    assert(lines_view(final(out)@) =~= lines_view(old(out)@).push(v));
}

fn push_body_items(out: &mut Vec<PlanLine>, lines: &Vec<String>)
    ensures
        lines_view(final(out)@) == lines_view(old(out)@) + views(lines@).map_values(
            |l: Seq<char>| LineView::Item(bullet(l)),
        ),
{
    let ghost start = lines_view(out@);
    let ghost items = views(lines@).map_values(|l: Seq<char>| LineView::Item(bullet(l)));
    let mut i: usize = 0;
    assert(start + items.take(0) =~= start);
    while i < lines.len()
        invariant
            i <= lines.len(),
            items == views(lines@).map_values(|l: Seq<char>| LineView::Item(bullet(l))),
            lines_view(out@) == start + items.take(i as int),
        decreases lines.len() - i,
    {
        push_line(out, PlanLine::Item(bullet_line(lines[i].as_str())));
        assert(items[i as int] == LineView::Item(bullet(lines@[i as int]@)));
        assert(items.take(i + 1) =~= items.take(i as int).push(items[i as int]));
        i = i + 1;
    }
    assert(items.take(lines.len() as int) =~= items);
}

fn push_file_items(out: &mut Vec<PlanLine>, paths: &Vec<String>)
    ensures
        lines_view(final(out)@) == lines_view(old(out)@) + views(paths@).map_values(
            |p: Seq<char>| LineView::Item(dashed(p)),
        ),
{
    let ghost start = lines_view(out@);
    let ghost items = views(paths@).map_values(|p: Seq<char>| LineView::Item(dashed(p)));
    let mut i: usize = 0;
    assert(start + items.take(0) =~= start);
    while i < paths.len()
        invariant
            i <= paths.len(),
            items == views(paths@).map_values(|p: Seq<char>| LineView::Item(dashed(p))),
            lines_view(out@) == start + items.take(i as int),
        decreases paths.len() - i,
    {
        let mut item = String::from_str("- ");
        item.append(paths[i].as_str());
        push_line(out, PlanLine::Item(item));
        assert(items[i as int] == LineView::Item(dashed(paths@[i as int]@)));
        assert(items.take(i + 1) =~= items.take(i as int).push(items[i as int]));
        i = i + 1;
    }
    assert(items.take(paths.len() as int) =~= items);
}

fn push_commit_block(out: &mut Vec<PlanLine>, number: usize, c: &CommitSuggestion)
    ensures
        lines_view(final(out)@) == lines_view(old(out)@) + commit_block(number as nat, *c),
{
    let ghost start = lines_view(out@);
    push_line(out, PlanLine::Blank);
    let mut heading = String::from_str("Commit ");
    let n = decimal_string(number);
    heading.append(n.as_str());
    push_line(out, PlanLine::Heading(heading));
    push_line(out, PlanLine::Message(c.commit_message()));
    if c.body.len() > 0 {
        push_line(out, PlanLine::Blank);
        push_line(out, PlanLine::Heading(String::from_str("Body:")));
        push_body_items(out, &c.body);
    }
    push_line(out, PlanLine::Blank);
    push_line(out, PlanLine::Heading(String::from_str("Files:")));
    push_file_items(out, &c.files);
    assert(lines_view(out@) =~= start + commit_block(number as nat, *c));
}

/// The lines that print a commit plan, each with its style.
pub fn commit_plan_lines(plan: &CommitPlan, diff_truncated: bool) -> (r: Vec<PlanLine>)
    ensures
        lines_view(r@) == plan_lines(*plan, diff_truncated),
{
    let mut out: Vec<PlanLine> = Vec::new();
    push_line(&mut out, PlanLine::Blank);
    push_line(&mut out, PlanLine::Heading(String::from_str("Suggested commit plan:")));
    if !is_blank(plan.strategy.as_str()) {
        push_line(&mut out, PlanLine::Strategy(String::from_str(trim_str(plan.strategy.as_str()))));
    }
    let ghost head = lines_view(out@);
    let mut i: usize = 0;
    assert(plan.commits@.take(0) =~= Seq::<CommitSuggestion>::empty());
    assert(head + commit_blocks(plan.commits@.take(0)) =~= head);
    while i < plan.commits.len()
        invariant
            i <= plan.commits.len(),
            lines_view(out@) == head + commit_blocks(plan.commits@.take(i as int)),
        decreases plan.commits.len() - i,
    {
        push_commit_block(&mut out, i + 1, &plan.commits[i]);
        let ghost taken = plan.commits@.take(i + 1);
        assert(taken.drop_last() =~= plan.commits@.take(i as int));
        assert(taken.last() == plan.commits@[i as int]);
        i = i + 1;
    }
    assert(plan.commits@.take(plan.commits.len() as int) =~= plan.commits@);
    if diff_truncated {
        push_line(&mut out, PlanLine::Blank);
        push_line(
            &mut out,
            PlanLine::Note(String::from_str("Note: diff was truncated before being sent to the model.")),
        );
    }
    assert(lines_view(out@) =~= plan_lines(*plan, diff_truncated));
    out
}

} // verus!
