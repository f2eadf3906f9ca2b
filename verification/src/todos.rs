use vstd::prelude::*;
use vstd::string::StringExecFns;

use crate::ids::fresh_uuid;

verus! {

/// One task on the list.
pub struct ToDo {
    pub id: String,
    pub title: String,
    pub slug: String,
    pub done: bool,
}

/// The whole task list, in insertion order.
pub struct Store {
    pub items: Vec<ToDo>,
}

/// `true` or `false`, as printed.
pub open spec fn bool_text(b: bool) -> Seq<char> {
    if b {
        "true"@
    } else {
        "false"@
    }
}

/// One task's line in the listing.
pub open spec fn format_todo(td: ToDo) -> Seq<char> {
    "ID: "@ + td.id@ + " -- Title: "@ + td.title@ + " -- Done: "@ + bool_text(td.done)
}

/// The listing of many tasks: their lines, run together in order.
pub open spec fn format_todos_text(items: Seq<ToDo>) -> Seq<char>
    decreases items.len(),
{
    if items.len() == 0 {
        Seq::empty()
    } else {
        format_todos_text(items.drop_last()) + format_todo(items.last())
    }
}

impl ToDo {
    /// A fresh task: open, freshly identified, with the placeholder
    /// slug.
    pub fn new(title: String) -> (td: ToDo)
        ensures
            td.title == title,
            td.done == false,
            td.slug@ == "Mhm, what can go here?"@,
            td.id@.len() == 36,
    {
        ToDo {
            id: fresh_uuid(),
            title: title,
            slug: <String as StringExecFns>::from_str("Mhm, what can go here?"),
            done: false,
        }
    }
}

impl Store {
    /// Append one task. Saving the list anywhere is a separate step.
    pub fn add_todo(&mut self, td: ToDo)
        ensures
            final(self).items@ == old(self).items@.push(td),
    {
        self.items.push(td);
    }

    /// Render the whole list for the terminal, or a friendly line
    /// when there is nothing to do.
    pub fn format_todos(&self) -> (s: String)
        ensures
            self.items@.len() == 0 ==> s@ == "No ToDos found - have a lovely day!"@,
            self.items@.len() > 0 ==> s@ == format_todos_text(self.items@),
    {
        if self.items.len() == 0 {
            return <String as StringExecFns>::from_str("No ToDos found - have a lovely day!");
        }
        let mut out = String::new();
        let mut k: usize = 0;
        while k < self.items.len()
            invariant
                0 <= k <= self.items@.len(),
                out@ == format_todos_text(self.items@.take(k as int)),
            decreases self.items@.len() - k,
        {
            out.append("ID: ");
            out.append(self.items[k].id.as_str());
            out.append(" -- Title: ");
            out.append(self.items[k].title.as_str());
            out.append(" -- Done: ");
            if self.items[k].done {
                out.append("true");
            } else {
                out.append("false");
            }
            proof {
                let taken = self.items@.take(k as int + 1);
                assert(taken.drop_last() =~= self.items@.take(k as int));
                assert(taken.last() == self.items@[k as int]);
                assert(out@ =~= format_todos_text(taken));
            }
            k = k + 1;
        }
        proof {
            assert(self.items@.take(self.items@.len() as int) =~= self.items@);
        }
        out
    }
}

} // verus!
