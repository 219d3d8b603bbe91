//! The memory context that the agent puts in front of a user message.

use vstd::prelude::*;
use vstd::string::*;
use crate::entry::{EntryView, MemoryEntry};
use crate::tiered::entries_view;

verus! {

/// How many recalled records the agent puts in front of a message.
pub const CONTEXT_RECALL_LIMIT: usize = 5;

/// One line per record, `- <key>: <content>`.
pub open spec fn context_lines(es: Seq<EntryView>) -> Seq<char>
    decreases es.len(),
{
    if es.len() == 0 {
        Seq::empty()
    } else {
        context_lines(es.drop_last()) + "- "@ + es.last().key + ": "@ + es.last().content + "\n"@
    }
}

/// The context block: nothing for no records, else a header, the record
/// lines and a blank line.
pub open spec fn context_text(es: Seq<EntryView>) -> Seq<char> {
    if es.len() == 0 {
        Seq::empty()
    } else {
        "[Memory context]\n"@ + context_lines(es) + "\n"@
    }
}

/// The memory context block for the records recalled for a message.
pub fn format_memory_context(entries: &Vec<MemoryEntry>) -> (r: String)
    ensures
        r@ == context_text(entries_view(entries@)),
{
    if entries.len() == 0 {
        proof {
            reveal_strlit("");
        }
        return String::from_str("");
    }
    let mut lines = String::from_str("");
    proof {
        reveal_strlit("");
    }
    let n = entries.len();
    let mut i: usize = 0;
    while i < n
        invariant
            n == entries@.len(),
            i <= n,
            lines@ == context_lines(entries_view(entries@).take(i as int)),
        decreases n - i,
    {
        let ghost before = lines@;
        lines.append("- ");
        lines.append(entries[i].key.as_str());
        lines.append(": ");
        lines.append(entries[i].content.as_str());
        lines.append("\n");
        let ghost es = entries_view(entries@);
        assert(es.take(i + 1).drop_last() =~= es.take(i as int));
        assert(es.take(i + 1).last() == entries@[i as int]@);
        i = i + 1;
    }
    assert(entries_view(entries@).take(n as int) =~= entries_view(entries@));
    let r = String::from_str("[Memory context]\n");
    let r = r.concat(lines.as_str());
    r.concat("\n")
}

} // verus!
