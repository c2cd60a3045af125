//! Human-facing descriptions of a plan.
use vstd::prelude::*;

use crate::action::ActionDescription;
use crate::text::{join, joined, texts_of};

verus! {

/// The descriptions of several steps, one step's after another's.
pub open spec fn concat_all(per_step: Seq<Seq<ActionDescription>>) -> Seq<ActionDescription>
    decreases per_step.len(),
{
    if per_step.len() == 0 {
        Seq::empty()
    } else {
        concat_all(per_step.drop_last()) + per_step.last()
    }
}

/// The supporting lines of a description, each on a line of its own, indented.
pub open spec fn explanation_text(lines: Seq<Seq<char>>) -> Seq<char>
    decreases lines.len(),
{
    if lines.len() == 0 {
        Seq::empty()
    } else {
        explanation_text(lines.drop_last()) + "\n  "@ + lines.last()
    }
}

/// One planned step as listed in a plan description; the supporting lines
/// only when `explain`.
pub open spec fn description_text(d: ActionDescription, explain: bool) -> Seq<char> {
    "* "@ + d.description@ + (if explain {
        explanation_text(texts_of(d.explanation@))
    } else {
        Seq::empty()
    })
}

/// The listed steps of a plan description.
pub open spec fn entries_of(descriptions: Seq<ActionDescription>, explain: bool) -> Seq<Seq<char>> {
    descriptions.map_values(|d: ActionDescription| description_text(d, explain))
}

/// A plan description: the heading, the planner, the configured settings
/// (or a note that the defaults are used) and the listed steps.
pub open spec fn plan_text(head: Seq<char>, planner: Seq<char>, settings: Seq<Seq<char>>, entries: Seq<Seq<char>>) -> Seq<char> {
    head + "Planner: "@ + planner + (if settings.len() == 0 {
        " (with default settings)"@
    } else {
        Seq::empty()
    }) + "\n\n"@ + (if settings.len() == 0 {
        Seq::empty()
    } else {
        "Configured settings:\n"@ + joined(settings, "\n"@) + "\n\n"@
    }) + "Planned actions:\n"@ + joined(entries, "\n"@) + "\n"@
}

/// The heading of an install description.
pub open spec fn install_head(version: Seq<char>) -> Seq<char> {
    "Nix install plan (v"@ + version + ")\n"@
}

/// The heading of an uninstall description.
pub open spec fn uninstall_head(version: Seq<char>) -> Seq<char> {
    "Nix uninstall plan (v"@ + version + ")\n\n"@
}

/// One planned step as listed in a plan description.
fn description_entry(d: &ActionDescription, explain: bool) -> (r: String)
    ensures
        r@ == description_text(*d, explain),
{
    let mut out = "* ".to_string().concat(d.description.as_str());
    if explain {
        let ghost t = texts_of(d.explanation@);
        let mut q: usize = 0;
        assert(out@ == "* "@ + d.description@ + explanation_text(t.subrange(0, 0)));
        while q < d.explanation.len()
            invariant
                t == texts_of(d.explanation@),
                0 <= q <= d.explanation@.len(),
                out@ == "* "@ + d.description@ + explanation_text(t.subrange(0, q as int)),
            decreases d.explanation@.len() - q,
        {
            out = out.concat("\n  ");
            out = out.concat(d.explanation[q].as_str());
            assert(t.subrange(0, q + 1).drop_last() =~= t.subrange(0, q as int));
            q = q + 1;
        }
        assert(t.subrange(0, d.explanation@.len() as int) =~= t);
    } else {
        assert(out@ =~= "* "@ + d.description@ + Seq::<char>::empty());
    }
    out
}

/// Render a plan description from its heading, the planner's name, the
/// configured settings lines and the descriptions of the planned steps.
pub fn render_plan(head: String, planner: String, settings: &Vec<String>, descriptions: &Vec<ActionDescription>, explain: bool) -> (r: String)
    ensures
        r@ == plan_text(head@, planner@, texts_of(settings@), entries_of(descriptions@, explain)),
{
    let mut entries: Vec<String> = Vec::new();
    let mut q: usize = 0;
    while q < descriptions.len()
        invariant
            0 <= q <= descriptions@.len(),
            texts_of(entries@) == entries_of(descriptions@, explain).subrange(0, q as int),
        decreases descriptions@.len() - q,
    {
        let ghost before = entries@;
        let e = description_entry(&descriptions[q], explain);
        entries.push(e);
        assert(texts_of(entries@) =~= entries_of(descriptions@, explain).subrange(0, q + 1)) by {
            assert(entries@ == before.push(e));
            assert(texts_of(before.push(e)) =~= texts_of(before).push(e@));
        }
        q = q + 1;
    }
    assert(entries_of(descriptions@, explain).subrange(0, descriptions@.len() as int) =~= entries_of(descriptions@, explain));
    let mut out = head.concat("Planner: ").concat(planner.as_str());
    if settings.len() == 0 {
        out = out.concat(" (with default settings)");
    }
    out = out.concat("\n\n");
    if settings.len() > 0 {
        out = out.concat("Configured settings:\n").concat(join(settings, "\n").as_str()).concat("\n\n");
    }
    out = out.concat("Planned actions:\n").concat(join(&entries, "\n").as_str()).concat("\n");
    out
}

} // verus!
