//! The text of the filter panel: the active filters by group.
use vstd::prelude::*;
use vstd::string::StringExecFns;
use crate::text::{join, join_strings, string_views};

verus! {

pub struct FilterPanel;

/// The panel's text and whether any filter is active (the renderer shows
/// active filters highlighted, the hint dimmed).
pub struct FilterText {
    pub text: String,
    pub active: bool,
}

/// One group line, `label` followed by the values joined with `", "`, or
/// nothing when the group has no values.
pub open spec fn filter_group(label: Seq<char>, values: Seq<Seq<char>>) -> Seq<Seq<char>> {
    if values.len() == 0 {
        seq![]
    } else {
        seq![label + join(values, ", "@)]
    }
}

/// The groups that have values, in the order categories, managers, scopes,
/// reasons.
pub open spec fn filter_groups(
    categories: Seq<Seq<char>>,
    managers: Seq<Seq<char>>,
    scopes: Seq<Seq<char>>,
    reasons: Seq<Seq<char>>,
) -> Seq<Seq<char>> {
    filter_group("Categories: "@, categories) + filter_group("Managers: "@, managers)
        + filter_group("Scopes: "@, scopes) + filter_group("Reasons: "@, reasons)
}

/// The panel text: the groups joined with `" | "`, or a hint when no filter
/// is active.
pub open spec fn filter_panel_text(groups: Seq<Seq<char>>) -> Seq<char> {
    if groups.len() == 0 {
        "No filters active (press F to open filter menu)"@
    } else {
        join(groups, " | "@)
    }
}

impl FilterPanel {
    fn push_group(groups: &mut Vec<String>, label: &str, values: &Vec<String>)
        ensures
            string_views(final(groups)@) == string_views(old(groups)@) + filter_group(
                label@,
                string_views(values@),
            ),
    {
        if values.len() > 0 {
            let mut line = String::from_str(label);
            let joined = join_strings(values, ", ");
            line.append(joined.as_str());
            groups.push(line);
            proof {
                assert(string_views(groups@) =~= string_views(old(groups)@) + filter_group(
                    label@,
                    string_views(values@),
                ));
            }
        } else {
            proof {
                assert(string_views(groups@) =~= string_views(old(groups)@) + filter_group(
                    label@,
                    string_views(values@),
                ));
            }
        }
    }

    /// The panel text for the given filter values, each given by the name
    /// of the value.
    pub fn filter_text(
        categories: &Vec<String>,
        managers: &Vec<String>,
        scopes: &Vec<String>,
        reasons: &Vec<String>,
    ) -> (r: FilterText)
        ensures
            r.text@ == filter_panel_text(
                filter_groups(
                    string_views(categories@),
                    string_views(managers@),
                    string_views(scopes@),
                    string_views(reasons@),
                ),
            ),
            r.active == (filter_groups(
                string_views(categories@),
                string_views(managers@),
                string_views(scopes@),
                string_views(reasons@),
            ).len() > 0),
    {
        let mut groups: Vec<String> = Vec::new();
        proof {
            assert(string_views(groups@) =~= Seq::<Seq<char>>::empty());
        }
        Self::push_group(&mut groups, "Categories: ", categories);
        Self::push_group(&mut groups, "Managers: ", managers);
        Self::push_group(&mut groups, "Scopes: ", scopes);
        Self::push_group(&mut groups, "Reasons: ", reasons);
        proof {
            assert(string_views(groups@) =~= filter_groups(
                string_views(categories@),
                string_views(managers@),
                string_views(scopes@),
                string_views(reasons@),
            ));
        }
        if groups.len() == 0 {
            FilterText { text: String::from_str("No filters active (press F to open filter menu)"), active: false }
        } else {
            FilterText { text: join_strings(&groups, " | "), active: true }
        }
    }
}

/// The panel shows a filter exactly when at least one of the four lists has
/// a value; with none it shows the hint.
pub proof fn lemma_filter_panel_active_iff_any_filter(
    categories: Seq<Seq<char>>,
    managers: Seq<Seq<char>>,
    scopes: Seq<Seq<char>>,
    reasons: Seq<Seq<char>>,
)
    ensures
        (filter_groups(categories, managers, scopes, reasons).len() > 0) <==> (categories.len() > 0
            || managers.len() > 0 || scopes.len() > 0 || reasons.len() > 0),
        (categories.len() == 0 && managers.len() == 0 && scopes.len() == 0 && reasons.len() == 0)
            ==> filter_panel_text(filter_groups(categories, managers, scopes, reasons))
            == "No filters active (press F to open filter menu)"@,
{
}

/// A single active group is shown alone: its label, then its values
/// separated by `", "`.
pub proof fn lemma_filter_panel_single_group(values: Seq<Seq<char>>)
    requires
        values.len() > 0,
    ensures
        filter_panel_text(filter_groups(values, seq![], seq![], seq![])) == "Categories: "@ + join(
            values,
            ", "@,
        ),
        filter_panel_text(filter_groups(seq![], values, seq![], seq![])) == "Managers: "@ + join(
            values,
            ", "@,
        ),
        filter_panel_text(filter_groups(seq![], seq![], values, seq![])) == "Scopes: "@ + join(
            values,
            ", "@,
        ),
        filter_panel_text(filter_groups(seq![], seq![], seq![], values)) == "Reasons: "@ + join(
            values,
            ", "@,
        ),
{
    let e = Seq::<Seq<char>>::empty();
    let g = seq!["Categories: "@ + join(values, ", "@)];
    assert(filter_groups(values, e, e, e) =~= g);
    assert(filter_groups(e, values, e, e) =~= seq!["Managers: "@ + join(values, ", "@)]);
    assert(filter_groups(e, e, values, e) =~= seq!["Scopes: "@ + join(values, ", "@)]);
    assert(filter_groups(e, e, e, values) =~= seq!["Reasons: "@ + join(values, ", "@)]);
}

/// Every active group is shown in the order categories, managers, scopes,
/// reasons, separated by `" | "`; here with all four active.
pub proof fn lemma_filter_panel_all_groups(
    categories: Seq<Seq<char>>,
    managers: Seq<Seq<char>>,
    scopes: Seq<Seq<char>>,
    reasons: Seq<Seq<char>>,
)
    requires
        categories.len() > 0,
        managers.len() > 0,
        scopes.len() > 0,
        reasons.len() > 0,
    ensures
        filter_panel_text(filter_groups(categories, managers, scopes, reasons)) == "Categories: "@
            + join(categories, ", "@) + " | "@ + "Managers: "@ + join(managers, ", "@) + " | "@
            + "Scopes: "@ + join(scopes, ", "@) + " | "@ + "Reasons: "@ + join(reasons, ", "@),
{
    let g = filter_groups(categories, managers, scopes, reasons);
    let a = "Categories: "@ + join(categories, ", "@);
    let b = "Managers: "@ + join(managers, ", "@);
    let c = "Scopes: "@ + join(scopes, ", "@);
    let d = "Reasons: "@ + join(reasons, ", "@);
    assert(g =~= seq![a, b, c, d]);
    assert(g.drop_last() =~= seq![a, b, c]);
    assert(g.drop_last().drop_last() =~= seq![a, b]);
    assert(g.drop_last().drop_last().drop_last() =~= seq![a]);
    assert(seq![a, b].drop_last() =~= seq![a]);
    assert(join(seq![a], " | "@) == a);
    assert(join(seq![a, b], " | "@) == a + " | "@ + b);
    assert(seq![a, b, c].drop_last() =~= seq![a, b]);
    assert(join(seq![a, b, c], " | "@) == a + " | "@ + b + " | "@ + c);
    assert(join(g, " | "@) =~= a + " | "@ + b + " | "@ + c + " | "@ + d);
}

} // verus!
