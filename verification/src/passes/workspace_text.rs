//! The text that shows a workspace: the nest, the architecture where there
//! is one, then each iterator with its properties, then each instruction
//! with its properties.

use crate::passes::property::{PropertyHook, PropertyManager, PropertyRecord};
use crate::passes::workspace::{entity_hook_id, EntityHook, HookKind, Workspace};
use crate::representations::affine_expr::push_text;
use crate::representations::instruction::{instruction_text, Instruction};
use crate::representations::loops::{iter_text, LoopIter, LoopNest};
use vstd::prelude::*;
use vstd::string::StringExecFns;

verus! {

/// The text of the properties filed under one identity: each after `\t> `.
pub open spec fn records_text(properties: Seq<PropertyRecord>) -> Seq<char>
    decreases properties.len(),
{
    if properties.len() == 0 {
        Seq::empty()
    } else {
        records_text(properties.drop_last()) + "\t> "@ + properties.last().text@ + "\n "@
    }
}

/// The text of what is filed under an identity; an empty mark where the
/// identity is not registered and, if `mark_empty` is set, also where
/// nothing is filed under it.
pub open spec fn filed_text(store: &PropertyManager, id: Seq<char>, mark_empty: bool) -> Seq<
    char,
> {
    if store.has_hook(id) && !(mark_empty && store.properties_of(id).len() == 0) {
        records_text(store.properties_of(id))
    } else {
        "\t>\n"@
    }
}

/// The text of the first `n` iterators of the nest, one on each line.
pub open spec fn nest_iters_text(iters: Seq<LoopIter>, n: int) -> Seq<char>
    decreases n,
{
    if n <= 0 {
        Seq::empty()
    } else {
        nest_iters_text(iters, n - 1) + iter_text(iters[n - 1]@) + "\n"@
    }
}

/// The text of the first `n` instructions of the body, one on each line,
/// indented.
pub open spec fn nest_body_text(body: Seq<Instruction>, n: int) -> Seq<char>
    decreases n,
{
    if n <= 0 {
        Seq::empty()
    } else {
        nest_body_text(body, n - 1) + "    "@ + instruction_text(body[n - 1]@) + "\n"@
    }
}

/// The text of a nest: its iterators from the outermost to the innermost,
/// then its body.
pub open spec fn nest_text(nest: &LoopNest) -> Seq<char> {
    nest_iters_text(nest.iters@, nest.iters@.len() as int) + nest_body_text(
        nest.body@,
        nest.body@.len() as int,
    )
}

/// The first `n` iterators, each with its properties; an iterator without
/// properties shows an empty mark.
pub open spec fn iters_section(w: &Workspace, n: int) -> Seq<char>
    decreases n,
{
    if n <= 0 {
        Seq::empty()
    } else {
        iters_section(w, n - 1) + "\n - "@ + iter_text(w.loop_nest.iters@[n - 1]@) + "\n"@
            + filed_text(&w.properties, entity_hook_id(HookKind::Iter, (n - 1) as nat), true)
    }
}

/// The first `n` instructions, each with its properties.
pub open spec fn body_section(w: &Workspace, n: int) -> Seq<char>
    decreases n,
{
    if n <= 0 {
        Seq::empty()
    } else {
        body_section(w, n - 1) + "\n - "@ + instruction_text(w.loop_nest.body@[n - 1]@) + "\n"@
            + filed_text(&w.properties, entity_hook_id(HookKind::Inst, (n - 1) as nat), false)
    }
}

/// The iterators and the instructions of a workspace, each with its
/// properties.
pub open spec fn entities_text(w: &Workspace) -> Seq<char> {
    "\nIters: \n"@ + iters_section(w, w.loop_nest.iters@.len() as int) + "\nBody: \n"@
        + body_section(w, w.loop_nest.body@.len() as int)
}

/// The text that shows the architecture of a workspace, where it has one
/// and `arch_text` is the text of that architecture.
pub open spec fn arch_section(w: &Workspace, arch_text: Seq<char>) -> Seq<char> {
    if w.arch is Some {
        "Arch: \n"@ + arch_text + "\n"@
    } else {
        Seq::empty()
    }
}

/// The text that shows a workspace, without its architecture.
pub open spec fn workspace_text(w: &Workspace) -> Seq<char> {
    "Problem: \n"@ + nest_text(&w.loop_nest) + "\n"@ + entities_text(w)
}

/// The text that shows a workspace, its architecture between the nest and
/// the iterators.
pub open spec fn workspace_text_with_arch(w: &Workspace, arch_text: Seq<char>) -> Seq<char> {
    "Problem: \n"@ + nest_text(&w.loop_nest) + "\n"@ + arch_section(w, arch_text)
        + entities_text(w)
}

fn write_records(out: &mut String, properties: &Vec<PropertyRecord>)
    ensures
        final(out)@ == old(out)@ + records_text(properties@),
{
    let mut i: usize = 0;
    assert(properties@.take(0) =~= Seq::<PropertyRecord>::empty());
    assert(out@ =~= old(out)@ + records_text(properties@.take(0)));
    while i < properties.len()
        invariant
            i <= properties.len(),
            out@ == old(out)@ + records_text(properties@.take(i as int)),
        decreases properties.len() - i,
    {
        out.append("\t> ");
        push_text(out, &properties[i].text);
        out.append("\n ");
        proof {
            let next = properties@.take(i + 1);
            assert(next.drop_last() =~= properties@.take(i as int));
            assert(next.last() == properties@[i as int]);
            assert(out@ =~= old(out)@ + records_text(next));
        }
        i = i + 1;
    }
    assert(properties@.take(properties.len() as int) =~= properties@);
}

fn write_filed(out: &mut String, store: &PropertyManager, hook: EntityHook, mark_empty: bool)
    ensures
        final(out)@ == old(out)@ + filed_text(
            store,
            entity_hook_id(hook.kind, hook.index as nat),
            mark_empty,
        ),
{
    assert(hook.hook_id_spec() == entity_hook_id(hook.kind, hook.index as nat));
    match store.get_properties_by_hook(hook) {
        Some(properties) => {
            if mark_empty && properties.len() == 0 {
                out.append("\t>\n");
            } else {
                write_records(out, properties);
            }
        },
        None => {
            out.append("\t>\n");
        },
    }
}

impl LoopNest {
    /// Appends the text of the nest.
    pub fn write(&self, out: &mut String)
        ensures
            final(out)@ == old(out)@ + nest_text(self),
    {
        let mut i: usize = 0;
        assert(out@ =~= old(out)@ + nest_iters_text(self.iters@, 0));
        while i < self.iters.len()
            invariant
                i <= self.iters.len(),
                out@ == old(out)@ + nest_iters_text(self.iters@, i as int),
            decreases self.iters.len() - i,
        {
            self.iters[i].write(out);
            out.append("\n");
            assert(out@ =~= old(out)@ + nest_iters_text(self.iters@, i + 1));
            i = i + 1;
        }
        let ghost head = out@;
        let mut j: usize = 0;
        assert(out@ =~= head + nest_body_text(self.body@, 0));
        while j < self.body.len()
            invariant
                j <= self.body.len(),
                out@ == head + nest_body_text(self.body@, j as int),
            decreases self.body.len() - j,
        {
            out.append("    ");
            self.body[j].write(out);
            out.append("\n");
            assert(out@ =~= head + nest_body_text(self.body@, j + 1));
            j = j + 1;
        }
        assert(out@ =~= old(out)@ + nest_text(self));
    }

    /// The text of the nest.
    pub fn to_string(&self) -> (r: String)
        ensures
            r@ == nest_text(self),
    {
        let mut out = String::new();
        self.write(&mut out);
        assert(out@ =~= nest_text(self));
        out
    }
}

impl Workspace {
    fn write_entities(&self, out: &mut String)
        ensures
            final(out)@ == old(out)@ + entities_text(self),
    {
        out.append("\nIters: \n");
        let ghost head = out@;
        let mut i: usize = 0;
        assert(out@ =~= head + iters_section(self, 0));
        while i < self.loop_nest.iters.len()
            invariant
                i <= self.loop_nest.iters.len(),
                out@ == head + iters_section(self, i as int),
            decreases self.loop_nest.iters.len() - i,
        {
            out.append("\n - ");
            self.loop_nest.iters[i].write(out);
            out.append("\n");
            write_filed(out, &self.properties, EntityHook::iter(i), true);
            assert(out@ =~= head + iters_section(self, i + 1));
            i = i + 1;
        }
        out.append("\nBody: \n");
        let ghost middle = out@;
        let mut j: usize = 0;
        assert(out@ =~= middle + body_section(self, 0));
        while j < self.loop_nest.body.len()
            invariant
                j <= self.loop_nest.body.len(),
                out@ == middle + body_section(self, j as int),
            decreases self.loop_nest.body.len() - j,
        {
            out.append("\n - ");
            self.loop_nest.body[j].write(out);
            out.append("\n");
            write_filed(out, &self.properties, EntityHook::inst(j), false);
            assert(out@ =~= middle + body_section(self, j + 1));
            j = j + 1;
        }
        assert(out@ =~= old(out)@ + entities_text(self));
    }

    /// The text that shows the workspace without its architecture: the
    /// nest, then each iterator with its properties, then each instruction
    /// with its properties.
    pub fn to_string(&self) -> (r: String)
        ensures
            r@ == workspace_text(self),
    {
        let mut out = String::from_str("Problem: \n");
        self.loop_nest.write(&mut out);
        out.append("\n");
        self.write_entities(&mut out);
        assert(out@ =~= workspace_text(self));
        out
    }

    /// The text that shows the workspace, where `arch_text` is the text of
    /// its architecture: the nest, the architecture if the workspace has
    /// one, then each iterator with its properties, then each instruction
    /// with its properties.
    pub fn to_string_with_arch(&self, arch_text: &str) -> (r: String)
        ensures
            r@ == workspace_text_with_arch(self, arch_text@),
    {
        let mut out = String::from_str("Problem: \n");
        self.loop_nest.write(&mut out);
        out.append("\n");
        if self.arch.is_some() {
            out.append("Arch: \n");
            out.append(arch_text);
            out.append("\n");
        }
        self.write_entities(&mut out);
        assert(out@ =~= workspace_text_with_arch(self, arch_text@));
        out
    }
}

} // verus!
