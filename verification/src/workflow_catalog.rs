//! The catalog of storyboard workflows given to the screenplay writer: each
//! workflow's key, name and outputs, and the inputs it needs filled in.

use vstd::prelude::*;
use crate::board::Storyboard;
use crate::naming::{
    autofilled_spec, is_autofilled_workflow_input, kind_label_spec, slug_spec, slugify_workflow_name,
    workflow_input_kind_label,
};
use crate::screenplay::strings_view;
use crate::sorted::{lex_order, sort_strings};
use crate::storyboard::{StoryboardWorkflowOutputKind, StoryboardWorkflowPreset};
use crate::text::{cat3, chars_of, string_of};
use crate::workflow_preset::{view_specs, InputSpecView};

verus! {

/// "input_key [kind]" for each input the writer fills in, in order.
pub open spec fn manual_input_labels(specs: Seq<InputSpecView>) -> Seq<Seq<char>>
    decreases specs.len(),
{
    if specs.len() == 0 {
        Seq::empty()
    } else {
        let before = manual_input_labels(specs.drop_last());
        if autofilled_spec(specs.last()) {
            before
        } else {
            before.push(specs.last().input_key + " ["@ + kind_label_spec(specs.last().kind) + "]"@)
        }
    }
}

/// `items.join(sep)`.
pub open spec fn join_with(items: Seq<Seq<char>>, sep: Seq<char>) -> Seq<char>
    decreases items.len(),
{
    if items.len() == 0 {
        Seq::empty()
    } else if items.len() == 1 {
        items[0]
    } else {
        join_with(items.drop_last(), sep) + sep + items.last()
    }
}

/// `StoryboardWorkflowOutputKind::label`.
pub open spec fn output_label(k: StoryboardWorkflowOutputKind) -> Seq<char> {
    match k {
        StoryboardWorkflowOutputKind::Image => "Outputs: Image"@,
        StoryboardWorkflowOutputKind::Video => "Outputs: Video"@,
        StoryboardWorkflowOutputKind::ImageAndVideo => "Outputs: Image & Video"@,
    }
}

/// A workflow's lines in the catalog: its key, name and outputs, then its
/// manual inputs in sorted order (or a note that there are none).
pub open spec fn catalog_entry(p: StoryboardWorkflowPreset) -> Seq<char> {
    let labels = manual_input_labels(view_specs(p.input_specs@)).sort_by(lex_order());
    "- key: "@ + slug_spec(p.name@, p.id) + " — "@ + p.name@ + " ("@ + output_label(p.output_kind) + ")\n"@ + if labels.len()
        == 0 {
        "  Inputs: (no manual inputs required)\n"@
    } else {
        "  Inputs: "@ + join_with(labels, ", "@) + "\n"@
    }
}

/// The catalog lines of all workflows, in order.
pub open spec fn catalog_entries(ws: Seq<StoryboardWorkflowPreset>) -> Seq<char>
    decreases ws.len(),
{
    if ws.len() == 0 {
        Seq::empty()
    } else {
        catalog_entries(ws.drop_last()) + catalog_entry(ws.last())
    }
}

/// The catalog's opening line.
pub open spec fn catalog_head() -> Seq<char> {
    "Storyboard workflow catalog (you must choose exactly one workflow per shot and include it under each shot's \"workflow\" object):\n"@
}

/// The catalog's closing instructions.
pub open spec fn catalog_tail() -> Seq<char> {
    "\nEvery shot's JSON block must include:\n\
\"workflow\": {\"key\": \"<workflow-key>\", \"inputs\": {\"input_key\": value}}\n\
Use one of the keys listed above. Populate the \"inputs\" object with values for that workflow's manual inputs (e.g., prompt, ratio)."@
}

/// Appends the characters of `s`.
fn extend_chars(out: &mut Vec<char>, s: &str)
    ensures
        final(out)@ == old(out)@ + s@,
{
    let c = chars_of(s);
    let ghost start = out@;
    let mut i: usize = 0;
    while i < c.len()
        invariant
            c@ == s@,
            i <= c@.len(),
            out@ == start + c@.subrange(0, i as int),
        decreases c@.len() - i,
    {
        out.push(c[i]);
        i = i + 1;
        assert(out@ =~= start + c@.subrange(0, i as int));
    }
    assert(c@.subrange(0, i as int) =~= c@);
}

/// The labels of a workflow's manual inputs, in order.
fn manual_labels(p: &StoryboardWorkflowPreset) -> (r: Vec<String>)
    ensures
        strings_view(r@) == manual_input_labels(view_specs(p.input_specs@)),
{
    let ghost sv = view_specs(p.input_specs@);
    let mut out: Vec<String> = Vec::new();
    let mut i: usize = 0;
    while i < p.input_specs.len()
        invariant
            sv == view_specs(p.input_specs@),
            i <= p.input_specs@.len(),
            strings_view(out@) == manual_input_labels(sv.subrange(0, i as int)),
        decreases p.input_specs@.len() - i,
    {
        let spec = &p.input_specs[i];
        proof {
            let pre = sv.subrange(0, i + 1);
            assert(pre.drop_last() =~= sv.subrange(0, i as int));
            assert(pre.last() == spec@);
        }
        if !is_autofilled_workflow_input(spec) {
            let label = cat3(spec.input_key.as_str(), " [", workflow_input_kind_label(&spec.kind));
            let full = crate::text::cat(label.as_str(), "]");
            let ghost old_out = strings_view(out@);
            out.push(full);
            proof {
                assert(strings_view(out@) =~= old_out.push(full@));
            }
        }
        i = i + 1;
    }
    assert(sv.subrange(0, i as int) =~= sv);
    out
}

/// Appends `items` joined by `, `.
fn extend_joined(out: &mut Vec<char>, items: &Vec<String>)
    ensures
        final(out)@ == old(out)@ + join_with(strings_view(items@), ", "@),
{
    let ghost start = out@;
    let ghost iv = strings_view(items@);
    let mut i: usize = 0;
    while i < items.len()
        invariant
            iv == strings_view(items@),
            i <= items@.len(),
            out@ == start + join_with(iv.subrange(0, i as int), ", "@),
        decreases items@.len() - i,
    {
        proof {
            let pre = iv.subrange(0, i + 1);
            assert(pre.drop_last() =~= iv.subrange(0, i as int));
            assert(pre.last() == items@[i as int]@);
        }
        if i > 0 {
            extend_chars(out, ", ");
        }
        extend_chars(out, items[i].as_str());
        proof {
            if i == 0 {
                assert(iv.subrange(0, 1).len() == 1);
                assert(out@ =~= start + join_with(iv.subrange(0, 1), ", "@));
            } else {
                assert(out@ =~= start + join_with(iv.subrange(0, i + 1), ", "@));
            }
        }
        i = i + 1;
    }
    assert(iv.subrange(0, i as int) =~= iv);
}

/// Appends a workflow's lines; see `catalog_entry`.
fn extend_entry(out: &mut Vec<char>, p: &StoryboardWorkflowPreset)
    ensures
        final(out)@ == old(out)@ + catalog_entry(*p),
{
    let ghost start = out@;
    let slug = slugify_workflow_name(p.name.as_str(), p.id);
    extend_chars(out, "- key: ");
    extend_chars(out, slug.as_str());
    extend_chars(out, " — ");
    extend_chars(out, p.name.as_str());
    extend_chars(out, " (");
    extend_chars(out, p.output_kind.label());
    extend_chars(out, ")\n");
    let ghost head = out@;
    let labels = sort_strings(manual_labels(p));
    if labels.len() == 0 {
        extend_chars(out, "  Inputs: (no manual inputs required)\n");
    } else {
        extend_chars(out, "  Inputs: ");
        extend_joined(out, &labels);
        extend_chars(out, "\n");
    }
    assert(out@ =~= start + catalog_entry(*p));
}

impl Storyboard {
    /// `screenplay_workflow_context`: the catalog of the storyboard's
    /// workflows for the screenplay writer, none when there are no
    /// workflows.
    pub fn screenplay_workflow_context(&self) -> (r: Option<String>)
        ensures
            match r {
                Some(t) => self.workflows@.len() > 0 && t@ == catalog_head() + catalog_entries(self.workflows@) + catalog_tail(),
                None => self.workflows@.len() == 0,
            },
    {
        if self.workflows.len() == 0 {
            return None;
        }
        let mut out: Vec<char> = Vec::new();
        extend_chars(
            &mut out,
            "Storyboard workflow catalog (you must choose exactly one workflow per shot and include it under each shot's \"workflow\" object):\n",
        );
        let ghost head = out@;
        let mut i: usize = 0;
        while i < self.workflows.len()
            invariant
                i <= self.workflows@.len(),
                out@ == head + catalog_entries(self.workflows@.subrange(0, i as int)),
            decreases self.workflows@.len() - i,
        {
            proof {
                let pre = self.workflows@.subrange(0, i + 1);
                assert(pre.drop_last() =~= self.workflows@.subrange(0, i as int));
            }
            extend_entry(&mut out, &self.workflows[i]);
            proof {
                assert(out@ =~= head + catalog_entries(self.workflows@.subrange(0, i + 1)));
            }
            i = i + 1;
        }
        assert(self.workflows@.subrange(0, i as int) =~= self.workflows@);
        extend_chars(
            &mut out,
            "\nEvery shot's JSON block must include:\n\
\"workflow\": {\"key\": \"<workflow-key>\", \"inputs\": {\"input_key\": value}}\n\
Use one of the keys listed above. Populate the \"inputs\" object with values for that workflow's manual inputs (e.g., prompt, ratio).",
        );
        Some(string_of(out.as_slice()))
    }
}

} // verus!
