//! Performance budget rules written as text, such as
//! `CLS<0.1,TTI<3000,requests<50,errors=0`.
//!
//! The library splits a budget into rules and each rule into a metric name,
//! a comparison and the text of its threshold. Reading the threshold as a
//! number and comparing measured values against it is left to the caller.

use vstd::prelude::*;

use crate::text::{chars_of, lower_text, lowercase, owned, same_text, text_of_range, trim_text, trimmed};

verus! {

broadcast use vstd::string::group_string_axioms;

/// The comparison of a budget rule.
#[derive(Clone, Copy, Debug, PartialEq, Eq, Structural)]
pub enum BudgetOp {
    LessThan,
    LessOrEqual,
    Equal,
    GreaterThan,
}

/// One rule of a budget, with its threshold still as text.
pub struct BudgetRuleText {
    pub metric: String,
    pub op: BudgetOp,
    pub value: String,
}

/// The pieces of `s` between commas, as `str::split(',')` yields them
/// (an empty text gives one empty piece).
pub open spec fn comma_pieces(s: Seq<char>) -> Seq<Seq<char>>
    decreases s.len(),
{
    if s.len() == 0 {
        seq![Seq::empty()]
    } else {
        let p = comma_pieces(s.drop_last());
        if s.last() == ',' {
            p.push(Seq::empty())
        } else {
            p.update(p.len() - 1, p.last().push(s.last()))
        }
    }
}

/// The operator `op` is written at position `i` of `t`.
pub open spec fn op_at(t: Seq<char>, i: int, op: BudgetOp) -> bool {
    &&& 0 <= i < t.len()
    &&& match op {
        BudgetOp::LessOrEqual => i + 1 < t.len() && t[i] == '<' && t[i + 1] == '=',
        BudgetOp::LessThan => t[i] == '<',
        BudgetOp::GreaterThan => t[i] == '>',
        BudgetOp::Equal => t[i] == '=',
    }
}

pub open spec fn written(t: Seq<char>, op: BudgetOp) -> bool {
    exists|i: int| op_at(t, i, op)
}

/// `i` is the first place where `op` is written in `t`.
pub open spec fn first_at(t: Seq<char>, i: int, op: BudgetOp) -> bool {
    op_at(t, i, op) && forall|j: int| 0 <= j < i ==> !#[trigger] op_at(t, j, op)
}

pub open spec fn first_op_at(t: Seq<char>, op: BudgetOp) -> int {
    choose|i: int| first_at(t, i, op)
}

/// The operator of a rule: `<=` wherever it is written, else `<`, else
/// `>`, else `=`.
pub open spec fn rule_op(t: Seq<char>) -> Option<BudgetOp> {
    if written(t, BudgetOp::LessOrEqual) {
        Some(BudgetOp::LessOrEqual)
    } else if written(t, BudgetOp::LessThan) {
        Some(BudgetOp::LessThan)
    } else if written(t, BudgetOp::GreaterThan) {
        Some(BudgetOp::GreaterThan)
    } else if written(t, BudgetOp::Equal) {
        Some(BudgetOp::Equal)
    } else {
        None
    }
}

pub open spec fn op_width(op: BudgetOp) -> int {
    if op == BudgetOp::LessOrEqual {
        2
    } else {
        1
    }
}

/// The text of an operator.
pub open spec fn op_text(op: BudgetOp) -> Seq<char> {
    match op {
        BudgetOp::LessThan => seq!['<'],
        BudgetOp::LessOrEqual => seq!['<', '='],
        BudgetOp::Equal => seq!['='],
        BudgetOp::GreaterThan => seq!['>'],
    }
}

/// The rule written in one comma-separated piece: the piece is trimmed,
/// split at the first place of its operator, the metric is the trimmed and
/// lowercased text before it and the threshold the trimmed text after it.
pub open spec fn rule_of(piece: Seq<char>) -> Option<(Seq<char>, BudgetOp, Seq<char>)> {
    let t = trimmed(piece);
    match rule_op(t) {
        None => None,
        Some(op) => {
            let pos = first_op_at(t, op);
            Some(
                (
                    lowercase(trimmed(t.take(pos))),
                    op,
                    trimmed(t.skip(pos + op_width(op))),
                ),
            )
        },
    }
}

/// The rules of the pieces, in order, skipping pieces without an operator.
pub open spec fn rules_of(ps: Seq<Seq<char>>) -> Seq<(Seq<char>, BudgetOp, Seq<char>)>
    decreases ps.len(),
{
    if ps.len() == 0 {
        seq![]
    } else {
        let r = rules_of(ps.drop_last());
        match rule_of(ps.last()) {
            Some(x) => r.push(x),
            None => r,
        }
    }
}

pub open spec fn rule_view(r: BudgetRuleText) -> (Seq<char>, BudgetOp, Seq<char>) {
    (r.metric@, r.op, r.value@)
}

pub open spec fn rules_view(v: Seq<BudgetRuleText>) -> Seq<(Seq<char>, BudgetOp, Seq<char>)> {
    v.map_values(|r: BudgetRuleText| rule_view(r))
}

impl BudgetOp {
    /// The text of the operator.
    pub fn symbol(&self) -> (r: &'static str)
        ensures
            r@ == op_text(*self),
    {
        proof {
            reveal_strlit("<");
            reveal_strlit("<=");
            reveal_strlit("=");
            reveal_strlit(">");
        }
        match self {
            BudgetOp::LessThan => "<",
            BudgetOp::LessOrEqual => "<=",
            BudgetOp::Equal => "=",
            BudgetOp::GreaterThan => ">",
        }
    }
}

/// The first place where `op` is written in `t`, if any.
fn find_op(t: &Vec<char>, op: BudgetOp) -> (r: Option<usize>)
    ensures
        match r {
            Some(i) => first_at(t@, i as int, op),
            None => !written(t@, op),
        },
{
    let mut i: usize = 0;
    while i < t.len()
        invariant
            i <= t.len(),
            forall|j: int| 0 <= j < i ==> !#[trigger] op_at(t@, j, op),
        decreases t.len() - i,
    {
        let hit = match op {
            BudgetOp::LessOrEqual => i + 1 < t.len() && t[i] == '<' && t[i + 1] == '=',
            BudgetOp::LessThan => t[i] == '<',
            BudgetOp::GreaterThan => t[i] == '>',
            BudgetOp::Equal => t[i] == '=',
        };
        if hit {
            assert(op_at(t@, i as int, op));
            return Some(i);
        }
        assert(!op_at(t@, i as int, op));
        i = i + 1;
    }
    None
}

proof fn lemma_first_unique(t: Seq<char>, i: int, op: BudgetOp)
    requires
        first_at(t, i, op),
    ensures
        first_op_at(t, op) == i,
        written(t, op),
{
    let c = first_op_at(t, op);
    assert(first_at(t, c, op));
    if c < i {
        assert(op_at(t, c, op));
    } else if c > i {
        assert(op_at(t, i, op));
    }
}

/// The operator of a trimmed rule text, with where it is written.
fn locate_op(t: &Vec<char>) -> (r: Option<(BudgetOp, usize)>)
    ensures
        match r {
            Some((op, i)) => rule_op(t@) == Some(op) && first_op_at(t@, op) == i,
            None => rule_op(t@) is None,
        },
{
    let ops = [BudgetOp::LessOrEqual, BudgetOp::LessThan, BudgetOp::GreaterThan, BudgetOp::Equal];
    let mut k: usize = 0;
    while k < 4
        invariant
            k <= 4,
            ops@ == seq![BudgetOp::LessOrEqual, BudgetOp::LessThan, BudgetOp::GreaterThan, BudgetOp::Equal],
            forall|j: int| 0 <= j < k ==> !written(t@, #[trigger] ops@[j]),
        decreases 4 - k,
    {
        let op = ops[k];
        match find_op(t, op) {
            Some(i) => {
                proof {
                    lemma_first_unique(t@, i as int, op);
                    assert(!written(t@, ops@[0]) || k == 0);
                }
                return Some((op, i));
            },
            None => {},
        }
        k = k + 1;
    }
    assert(!written(t@, ops@[0]) && !written(t@, ops@[1]) && !written(t@, ops@[2]) && !written(t@, ops@[3]));
    None
}

/// The rule written in one comma-separated piece of a budget.
fn rule_of_piece(piece: &str) -> (r: Option<BudgetRuleText>)
    ensures
        match r {
            Some(x) => rule_of(piece@) == Some(rule_view(x)),
            None => rule_of(piece@) is None,
        },
{
    let t = trim_text(piece);
    let tc = chars_of(t);
    match locate_op(&tc) {
        None => None,
        Some((op, pos)) => {
            let width: usize = if op == BudgetOp::LessOrEqual {
                2
            } else {
                1
            };
            proof {
                assert(first_at(tc@, first_op_at(tc@, op), op)) by {
                    lemma_op_first(tc@, op);
                }
            }
            let before = text_of_range(&tc, 0, pos);
            let after = text_of_range(&tc, pos + width, tc.len());
            let metric = lower_text(trim_text(before.as_str()));
            let value = owned(trim_text(after.as_str()));
            proof {
                assert(tc@.subrange(0, pos as int) =~= tc@.take(pos as int));
                assert(tc@.subrange(pos + width, tc@.len() as int) =~= tc@.skip(pos + width));
            }
            Some(BudgetRuleText { metric, op, value })
        },
    }
}

proof fn lemma_op_first(t: Seq<char>, op: BudgetOp)
    requires
        written(t, op),
    ensures
        first_at(t, first_op_at(t, op), op),
{
    let w = choose|i: int| op_at(t, i, op);
    lemma_least(t, op, w);
}

proof fn lemma_least(t: Seq<char>, op: BudgetOp, w: int)
    requires
        op_at(t, w, op),
    ensures
        exists|i: int| first_at(t, i, op),
    decreases w,
{
    if exists|j: int| 0 <= j < w && #[trigger] op_at(t, j, op) {
        let j = choose|j: int| 0 <= j < w && #[trigger] op_at(t, j, op);
        lemma_least(t, op, j);
    } else {
        assert(first_at(t, w, op));
    }
}

proof fn lemma_pieces_nonempty(s: Seq<char>)
    ensures
        comma_pieces(s).len() >= 1,
    decreases s.len(),
{
    if s.len() > 0 {
        lemma_pieces_nonempty(s.drop_last());
    }
}

proof fn lemma_pieces_step(s: Seq<char>, c: char)
    ensures
        comma_pieces(s.push(c)) == if c == ',' {
            comma_pieces(s).push(Seq::empty())
        } else {
            comma_pieces(s).update(comma_pieces(s).len() - 1, comma_pieces(s).last().push(c))
        },
{
    assert(s.push(c).drop_last() =~= s);
}

/// Splits a budget into its rules, in the order they are written. A piece
/// without an operator is skipped.
pub fn split_budget(budget: &str) -> (r: Vec<BudgetRuleText>)
    ensures
        rules_view(r@) == rules_of(comma_pieces(budget@)),
{
    let cs = chars_of(budget);
    let mut out: Vec<BudgetRuleText> = Vec::new();
    let ghost mut done: Seq<Seq<char>> = seq![];
    let mut lo: usize = 0;
    let mut i: usize = 0;
    proof {
        assert(cs@.take(0) =~= Seq::<char>::empty());
        assert(done.push(cs@.subrange(0, 0)) =~= seq![Seq::<char>::empty()]);
    }
    while i < cs.len()
        invariant
            lo <= i <= cs.len(),
            comma_pieces(cs@.take(i as int)) == done.push(cs@.subrange(lo as int, i as int)),
            rules_view(out@) == rules_of(done),
        decreases cs.len() - i,
    {
        proof {
            lemma_pieces_step(cs@.take(i as int), cs@[i as int]);
            assert(cs@.take(i as int).push(cs@[i as int]) =~= cs@.take(i + 1));
        }
        if cs[i] == ',' {
            let piece = text_of_range(&cs, lo, i);
            let rule = rule_of_piece(piece.as_str());
            proof {
                assert(done.push(piece@).drop_last() =~= done);
            }
            let ghost prev = out@;
            match rule {
                Some(x) => {
                    out.push(x);
                    proof {
                        assert(rules_view(out@) =~= rules_view(prev).push(rule_view(x)));
                    }
                },
                None => {},
            }
            proof {
                done = done.push(piece@);
                assert(cs@.subrange(i + 1, i + 1) =~= Seq::<char>::empty());
            }
            lo = i + 1;
        } else {
            proof {
                assert(cs@.subrange(lo as int, i as int).push(cs@[i as int]) =~= cs@.subrange(lo as int, i + 1));
            }
        }
        i = i + 1;
    }
    let piece = text_of_range(&cs, lo, cs.len());
    let rule = rule_of_piece(piece.as_str());
    proof {
        assert(cs@.take(cs@.len() as int) =~= cs@);
        assert(done.push(piece@).drop_last() =~= done);
    }
    let ghost prev = out@;
    match rule {
        Some(x) => {
            out.push(x);
            proof {
                assert(rules_view(out@) =~= rules_view(prev).push(rule_view(x)));
            }
        },
        None => {},
    }
    out
}

/// The summary figure that a budget rule's metric name refers to.
#[derive(Clone, Copy, Debug, PartialEq, Eq, Structural)]
pub enum BudgetMetric {
    Cls,
    TimeToInteractive,
    NetworkRequests,
    Errors,
    DomMutations,
    LayoutShifts,
    ConsoleMessages,
    TotalEvents,
    Animations,
    /// A name the budget does not know; it is measured as zero.
    Unknown,
}

pub open spec fn metric_named(m: Seq<char>) -> BudgetMetric {
    if m == "cls"@ {
        BudgetMetric::Cls
    } else if m == "tti"@ || m == "interactive"@ {
        BudgetMetric::TimeToInteractive
    } else if m == "requests"@ || m == "network"@ {
        BudgetMetric::NetworkRequests
    } else if m == "errors"@ {
        BudgetMetric::Errors
    } else if m == "dom"@ || m == "mutations"@ || m == "dom_mutations"@ {
        BudgetMetric::DomMutations
    } else if m == "layout_shifts"@ || m == "shifts"@ {
        BudgetMetric::LayoutShifts
    } else if m == "console"@ || m == "console_messages"@ {
        BudgetMetric::ConsoleMessages
    } else if m == "events"@ || m == "total_events"@ || m == "total"@ {
        BudgetMetric::TotalEvents
    } else if m == "animations"@ {
        BudgetMetric::Animations
    } else {
        BudgetMetric::Unknown
    }
}

/// The names by which a budget refers to each summary figure.
pub open spec fn metric_aliases(k: BudgetMetric) -> Set<Seq<char>> {
    match k {
        BudgetMetric::Cls => set!["cls"@],
        BudgetMetric::TimeToInteractive => set!["tti"@, "interactive"@],
        BudgetMetric::NetworkRequests => set!["requests"@, "network"@],
        BudgetMetric::Errors => set!["errors"@],
        BudgetMetric::DomMutations => set!["dom"@, "mutations"@, "dom_mutations"@],
        BudgetMetric::LayoutShifts => set!["layout_shifts"@, "shifts"@],
        BudgetMetric::ConsoleMessages => set!["console"@, "console_messages"@],
        BudgetMetric::TotalEvents => set!["events"@, "total_events"@, "total"@],
        BudgetMetric::Animations => set!["animations"@],
        BudgetMetric::Unknown => Set::empty(),
    }
}

/// Every name a budget may use for a summary figure refers to that figure,
/// and a name refers to a figure only when it is one of that figure's names.
pub proof fn law_metric_names(k: BudgetMetric, m: Seq<char>)
    ensures
        metric_aliases(k).contains(m) ==> metric_named(m) == k,
        metric_named(m) != BudgetMetric::Unknown ==> metric_aliases(metric_named(m)).contains(m),
{
    assert(metric_named("cls"@) == BudgetMetric::Cls) by {
        reveal_strlit("cls");
    }
    assert(metric_named("tti"@) == BudgetMetric::TimeToInteractive) by {
        reveal_strlit("tti");
        reveal_strlit("cls");
        assert("tti"@[0] != "cls"@[0]);
    }
    assert(metric_named("interactive"@) == BudgetMetric::TimeToInteractive) by {
        reveal_strlit("interactive");
        reveal_strlit("cls");
        reveal_strlit("tti");
        assert("interactive"@.len() != "cls"@.len());
        assert("interactive"@.len() != "tti"@.len());
    }
    assert(metric_named("requests"@) == BudgetMetric::NetworkRequests) by {
        reveal_strlit("requests");
        reveal_strlit("cls");
        reveal_strlit("tti");
        reveal_strlit("interactive");
        assert("requests"@.len() != "cls"@.len());
        assert("requests"@.len() != "tti"@.len());
        assert("requests"@.len() != "interactive"@.len());
    }
    assert(metric_named("network"@) == BudgetMetric::NetworkRequests) by {
        reveal_strlit("network");
        reveal_strlit("cls");
        reveal_strlit("tti");
        reveal_strlit("interactive");
        reveal_strlit("requests");
        assert("network"@.len() != "cls"@.len());
        assert("network"@.len() != "tti"@.len());
        assert("network"@.len() != "interactive"@.len());
        assert("network"@.len() != "requests"@.len());
    }
    assert(metric_named("errors"@) == BudgetMetric::Errors) by {
        reveal_strlit("errors");
        reveal_strlit("cls");
        reveal_strlit("tti");
        reveal_strlit("interactive");
        reveal_strlit("requests");
        reveal_strlit("network");
        assert("errors"@.len() != "cls"@.len());
        assert("errors"@.len() != "tti"@.len());
        assert("errors"@.len() != "interactive"@.len());
        assert("errors"@.len() != "requests"@.len());
        assert("errors"@.len() != "network"@.len());
    }
    assert(metric_named("dom"@) == BudgetMetric::DomMutations) by {
        reveal_strlit("dom");
        reveal_strlit("cls");
        reveal_strlit("tti");
        reveal_strlit("interactive");
        reveal_strlit("requests");
        reveal_strlit("network");
        reveal_strlit("errors");
        assert("dom"@[0] != "cls"@[0]);
        assert("dom"@[0] != "tti"@[0]);
        assert("dom"@.len() != "interactive"@.len());
        assert("dom"@.len() != "requests"@.len());
        assert("dom"@.len() != "network"@.len());
        assert("dom"@.len() != "errors"@.len());
    }
    assert(metric_named("mutations"@) == BudgetMetric::DomMutations) by {
        reveal_strlit("mutations");
        reveal_strlit("cls");
        reveal_strlit("tti");
        reveal_strlit("interactive");
        reveal_strlit("requests");
        reveal_strlit("network");
        reveal_strlit("errors");
        reveal_strlit("dom");
        assert("mutations"@.len() != "cls"@.len());
        assert("mutations"@.len() != "tti"@.len());
        assert("mutations"@.len() != "interactive"@.len());
        assert("mutations"@.len() != "requests"@.len());
        assert("mutations"@.len() != "network"@.len());
        assert("mutations"@.len() != "errors"@.len());
        assert("mutations"@.len() != "dom"@.len());
    }
    assert(metric_named("dom_mutations"@) == BudgetMetric::DomMutations) by {
        reveal_strlit("dom_mutations");
        reveal_strlit("cls");
        reveal_strlit("tti");
        reveal_strlit("interactive");
        reveal_strlit("requests");
        reveal_strlit("network");
        reveal_strlit("errors");
        reveal_strlit("dom");
        reveal_strlit("mutations");
        assert("dom_mutations"@.len() != "cls"@.len());
        assert("dom_mutations"@.len() != "tti"@.len());
        assert("dom_mutations"@.len() != "interactive"@.len());
        assert("dom_mutations"@.len() != "requests"@.len());
        assert("dom_mutations"@.len() != "network"@.len());
        assert("dom_mutations"@.len() != "errors"@.len());
        assert("dom_mutations"@.len() != "dom"@.len());
        assert("dom_mutations"@.len() != "mutations"@.len());
    }
    assert(metric_named("layout_shifts"@) == BudgetMetric::LayoutShifts) by {
        reveal_strlit("layout_shifts");
        reveal_strlit("cls");
        reveal_strlit("tti");
        reveal_strlit("interactive");
        reveal_strlit("requests");
        reveal_strlit("network");
        reveal_strlit("errors");
        reveal_strlit("dom");
        reveal_strlit("mutations");
        reveal_strlit("dom_mutations");
        assert("layout_shifts"@.len() != "cls"@.len());
        assert("layout_shifts"@.len() != "tti"@.len());
        assert("layout_shifts"@.len() != "interactive"@.len());
        assert("layout_shifts"@.len() != "requests"@.len());
        assert("layout_shifts"@.len() != "network"@.len());
        assert("layout_shifts"@.len() != "errors"@.len());
        assert("layout_shifts"@.len() != "dom"@.len());
        assert("layout_shifts"@.len() != "mutations"@.len());
        assert("layout_shifts"@[0] != "dom_mutations"@[0]);
    }
    assert(metric_named("shifts"@) == BudgetMetric::LayoutShifts) by {
        reveal_strlit("shifts");
        reveal_strlit("cls");
        reveal_strlit("tti");
        reveal_strlit("interactive");
        reveal_strlit("requests");
        reveal_strlit("network");
        reveal_strlit("errors");
        reveal_strlit("dom");
        reveal_strlit("mutations");
        reveal_strlit("dom_mutations");
        reveal_strlit("layout_shifts");
        assert("shifts"@.len() != "cls"@.len());
        assert("shifts"@.len() != "tti"@.len());
        assert("shifts"@.len() != "interactive"@.len());
        assert("shifts"@.len() != "requests"@.len());
        assert("shifts"@.len() != "network"@.len());
        assert("shifts"@[0] != "errors"@[0]);
        assert("shifts"@.len() != "dom"@.len());
        assert("shifts"@.len() != "mutations"@.len());
        assert("shifts"@.len() != "dom_mutations"@.len());
        assert("shifts"@.len() != "layout_shifts"@.len());
    }
    assert(metric_named("console"@) == BudgetMetric::ConsoleMessages) by {
        reveal_strlit("console");
        reveal_strlit("cls");
        reveal_strlit("tti");
        reveal_strlit("interactive");
        reveal_strlit("requests");
        reveal_strlit("network");
        reveal_strlit("errors");
        reveal_strlit("dom");
        reveal_strlit("mutations");
        reveal_strlit("dom_mutations");
        reveal_strlit("layout_shifts");
        reveal_strlit("shifts");
        assert("console"@.len() != "cls"@.len());
        assert("console"@.len() != "tti"@.len());
        assert("console"@.len() != "interactive"@.len());
        assert("console"@.len() != "requests"@.len());
        assert("console"@[0] != "network"@[0]);
        assert("console"@.len() != "errors"@.len());
        assert("console"@.len() != "dom"@.len());
        assert("console"@.len() != "mutations"@.len());
        assert("console"@.len() != "dom_mutations"@.len());
        assert("console"@.len() != "layout_shifts"@.len());
        assert("console"@.len() != "shifts"@.len());
    }
    assert(metric_named("console_messages"@) == BudgetMetric::ConsoleMessages) by {
        reveal_strlit("console_messages");
        reveal_strlit("cls");
        reveal_strlit("tti");
        reveal_strlit("interactive");
        reveal_strlit("requests");
        reveal_strlit("network");
        reveal_strlit("errors");
        reveal_strlit("dom");
        reveal_strlit("mutations");
        reveal_strlit("dom_mutations");
        reveal_strlit("layout_shifts");
        reveal_strlit("shifts");
        reveal_strlit("console");
        assert("console_messages"@.len() != "cls"@.len());
        assert("console_messages"@.len() != "tti"@.len());
        assert("console_messages"@.len() != "interactive"@.len());
        assert("console_messages"@.len() != "requests"@.len());
        assert("console_messages"@.len() != "network"@.len());
        assert("console_messages"@.len() != "errors"@.len());
        assert("console_messages"@.len() != "dom"@.len());
        assert("console_messages"@.len() != "mutations"@.len());
        assert("console_messages"@.len() != "dom_mutations"@.len());
        assert("console_messages"@.len() != "layout_shifts"@.len());
        assert("console_messages"@.len() != "shifts"@.len());
        assert("console_messages"@.len() != "console"@.len());
    }
    assert(metric_named("events"@) == BudgetMetric::TotalEvents) by {
        reveal_strlit("events");
        reveal_strlit("cls");
        reveal_strlit("tti");
        reveal_strlit("interactive");
        reveal_strlit("requests");
        reveal_strlit("network");
        reveal_strlit("errors");
        reveal_strlit("dom");
        reveal_strlit("mutations");
        reveal_strlit("dom_mutations");
        reveal_strlit("layout_shifts");
        reveal_strlit("shifts");
        reveal_strlit("console");
        reveal_strlit("console_messages");
        assert("events"@.len() != "cls"@.len());
        assert("events"@.len() != "tti"@.len());
        assert("events"@.len() != "interactive"@.len());
        assert("events"@.len() != "requests"@.len());
        assert("events"@.len() != "network"@.len());
        assert("events"@[1] != "errors"@[1]);
        assert("events"@.len() != "dom"@.len());
        assert("events"@.len() != "mutations"@.len());
        assert("events"@.len() != "dom_mutations"@.len());
        assert("events"@.len() != "layout_shifts"@.len());
        assert("events"@[0] != "shifts"@[0]);
        assert("events"@.len() != "console"@.len());
        assert("events"@.len() != "console_messages"@.len());
    }
    assert(metric_named("total_events"@) == BudgetMetric::TotalEvents) by {
        reveal_strlit("total_events");
        reveal_strlit("cls");
        reveal_strlit("tti");
        reveal_strlit("interactive");
        reveal_strlit("requests");
        reveal_strlit("network");
        reveal_strlit("errors");
        reveal_strlit("dom");
        reveal_strlit("mutations");
        reveal_strlit("dom_mutations");
        reveal_strlit("layout_shifts");
        reveal_strlit("shifts");
        reveal_strlit("console");
        reveal_strlit("console_messages");
        reveal_strlit("events");
        assert("total_events"@.len() != "cls"@.len());
        assert("total_events"@.len() != "tti"@.len());
        assert("total_events"@.len() != "interactive"@.len());
        assert("total_events"@.len() != "requests"@.len());
        assert("total_events"@.len() != "network"@.len());
        assert("total_events"@.len() != "errors"@.len());
        assert("total_events"@.len() != "dom"@.len());
        assert("total_events"@.len() != "mutations"@.len());
        assert("total_events"@.len() != "dom_mutations"@.len());
        assert("total_events"@.len() != "layout_shifts"@.len());
        assert("total_events"@.len() != "shifts"@.len());
        assert("total_events"@.len() != "console"@.len());
        assert("total_events"@.len() != "console_messages"@.len());
        assert("total_events"@.len() != "events"@.len());
    }
    assert(metric_named("total"@) == BudgetMetric::TotalEvents) by {
        reveal_strlit("total");
        reveal_strlit("cls");
        reveal_strlit("tti");
        reveal_strlit("interactive");
        reveal_strlit("requests");
        reveal_strlit("network");
        reveal_strlit("errors");
        reveal_strlit("dom");
        reveal_strlit("mutations");
        reveal_strlit("dom_mutations");
        reveal_strlit("layout_shifts");
        reveal_strlit("shifts");
        reveal_strlit("console");
        reveal_strlit("console_messages");
        reveal_strlit("events");
        reveal_strlit("total_events");
        assert("total"@.len() != "cls"@.len());
        assert("total"@.len() != "tti"@.len());
        assert("total"@.len() != "interactive"@.len());
        assert("total"@.len() != "requests"@.len());
        assert("total"@.len() != "network"@.len());
        assert("total"@.len() != "errors"@.len());
        assert("total"@.len() != "dom"@.len());
        assert("total"@.len() != "mutations"@.len());
        assert("total"@.len() != "dom_mutations"@.len());
        assert("total"@.len() != "layout_shifts"@.len());
        assert("total"@.len() != "shifts"@.len());
        assert("total"@.len() != "console"@.len());
        assert("total"@.len() != "console_messages"@.len());
        assert("total"@.len() != "events"@.len());
        assert("total"@.len() != "total_events"@.len());
    }
    assert(metric_named("animations"@) == BudgetMetric::Animations) by {
        reveal_strlit("animations");
        reveal_strlit("cls");
        reveal_strlit("tti");
        reveal_strlit("interactive");
        reveal_strlit("requests");
        reveal_strlit("network");
        reveal_strlit("errors");
        reveal_strlit("dom");
        reveal_strlit("mutations");
        reveal_strlit("dom_mutations");
        reveal_strlit("layout_shifts");
        reveal_strlit("shifts");
        reveal_strlit("console");
        reveal_strlit("console_messages");
        reveal_strlit("events");
        reveal_strlit("total_events");
        reveal_strlit("total");
        assert("animations"@.len() != "cls"@.len());
        assert("animations"@.len() != "tti"@.len());
        assert("animations"@.len() != "interactive"@.len());
        assert("animations"@.len() != "requests"@.len());
        assert("animations"@.len() != "network"@.len());
        assert("animations"@.len() != "errors"@.len());
        assert("animations"@.len() != "dom"@.len());
        assert("animations"@.len() != "mutations"@.len());
        assert("animations"@.len() != "dom_mutations"@.len());
        assert("animations"@.len() != "layout_shifts"@.len());
        assert("animations"@.len() != "shifts"@.len());
        assert("animations"@.len() != "console"@.len());
        assert("animations"@.len() != "console_messages"@.len());
        assert("animations"@.len() != "events"@.len());
        assert("animations"@.len() != "total_events"@.len());
        assert("animations"@.len() != "total"@.len());
    }
}

/// The summary figure that a (lowercased) metric name refers to.
pub fn budget_metric(name: &str) -> (r: BudgetMetric)
    ensures
        r == metric_named(name@),
{
    if same_text(name, "cls") {
        BudgetMetric::Cls
    } else if same_text(name, "tti") || same_text(name, "interactive") {
        BudgetMetric::TimeToInteractive
    } else if same_text(name, "requests") || same_text(name, "network") {
        BudgetMetric::NetworkRequests
    } else if same_text(name, "errors") {
        BudgetMetric::Errors
    } else if same_text(name, "dom") || same_text(name, "mutations") || same_text(name, "dom_mutations") {
        BudgetMetric::DomMutations
    } else if same_text(name, "layout_shifts") || same_text(name, "shifts") {
        BudgetMetric::LayoutShifts
    } else if same_text(name, "console") || same_text(name, "console_messages") {
        BudgetMetric::ConsoleMessages
    } else if same_text(name, "events") || same_text(name, "total_events") || same_text(name, "total") {
        BudgetMetric::TotalEvents
    } else if same_text(name, "animations") {
        BudgetMetric::Animations
    } else {
        BudgetMetric::Unknown
    }
}

} // verus!
