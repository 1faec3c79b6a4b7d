//! The text shown to a user for a file list and its entries.
use vstd::prelude::*;
use vstd::string::StringExecFns;

use crate::response::{entry_views, FileEntry, FileEntryView, ListResp, ListRespView};

verus! {

/// The character of a decimal digit.
pub open spec fn digit_char(d: nat) -> char {
    if d == 0 {
        '0'
    } else if d == 1 {
        '1'
    } else if d == 2 {
        '2'
    } else if d == 3 {
        '3'
    } else if d == 4 {
        '4'
    } else if d == 5 {
        '5'
    } else if d == 6 {
        '6'
    } else if d == 7 {
        '7'
    } else if d == 8 {
        '8'
    } else {
        '9'
    }
}

/// The decimal digits of `n`, most significant first, without leading zeros.
pub open spec fn decimal(n: nat) -> Seq<char>
    decreases n,
{
    if n < 10 {
        seq![digit_char(n)]
    } else {
        decimal(n / 10).push(digit_char(n % 10))
    }
}

/// The text of one entry: `name (size bytes)`.
pub open spec fn entry_text(e: FileEntryView) -> Seq<char> {
    e.name + " ("@ + decimal(e.file_size as nat) + " bytes)"@
}

/// One line per entry, each `  - ` and the entry's text.
pub open spec fn entry_lines(es: Seq<FileEntryView>) -> Seq<char>
    decreases es.len(),
{
    if es.len() == 0 {
        Seq::empty()
    } else {
        entry_lines(es.drop_last()) + "  - "@ + entry_text(es.last()) + "\n"@
    }
}

/// The text of a file list: a title with the file count, a line per entry,
/// and a closing rule.
pub open spec fn list_text(l: ListRespView) -> Seq<char> {
    "--- File List ("@ + decimal(l.file_count as nat) + " items) ---\n"@ + entry_lines(l.entries)
        + "----------------------------"@
}

/// The one-character text of a digit.
fn digit_str(d: u64) -> (r: &'static str)
    requires
        d < 10,
    ensures
        r@ == seq![digit_char(d as nat)],
{
    proof {
        reveal_strlit("0");
        reveal_strlit("1");
        reveal_strlit("2");
        reveal_strlit("3");
        reveal_strlit("4");
        reveal_strlit("5");
        reveal_strlit("6");
        reveal_strlit("7");
        reveal_strlit("8");
        reveal_strlit("9");
    }
    if d == 0 {
        "0"
    } else if d == 1 {
        "1"
    } else if d == 2 {
        "2"
    } else if d == 3 {
        "3"
    } else if d == 4 {
        "4"
    } else if d == 5 {
        "5"
    } else if d == 6 {
        "6"
    } else if d == 7 {
        "7"
    } else if d == 8 {
        "8"
    } else {
        "9"
    }
}

/// Appends the decimal digits of `n` to `s`.
pub fn push_decimal(s: &mut String, n: u64)
    ensures
        final(s)@ == old(s)@ + decimal(n as nat),
    decreases n,
{
    if n >= 10 {
        push_decimal(s, n / 10);
    }
    s.append(digit_str(n % 10));
    assert(s@ =~= old(s)@ + decimal(n as nat));
}

impl FileEntry {
    /// The text of this entry: `name (size bytes)`.
    pub fn display(&self) -> (r: String)
        ensures
            r@ == entry_text(self@),
    {
        let mut s = String::new();
        s.append(self.name.as_str());
        s.append(" (");
        push_decimal(&mut s, self.file_size);
        s.append(" bytes)");
        assert(s@ =~= entry_text(self@));
        s
    }
}

impl ListResp {
    /// The text of this list: a title with the file count, a line per entry,
    /// and a closing rule.
    pub fn display(&self) -> (r: String)
        ensures
            r@ == list_text(self@),
    {
        let entries = self.get_entries();
        let ghost es = entry_views(entries@);
        let mut s = String::new();
        s.append("--- File List (");
        push_decimal(&mut s, self.get_file_count() as u64);
        s.append(" items) ---\n");
        let ghost head = s@;
        let mut j: usize = 0;
        assert(es.take(0) =~= Seq::<FileEntryView>::empty());
        assert(head + entry_lines(es.take(0)) =~= head);
        while j < entries.len()
            invariant
                0 <= j <= entries@.len(),
                es == entry_views(entries@),
                s@ == head + entry_lines(es.take(j as int)),
            decreases entries@.len() - j,
        {
            s.append("  - ");
            let line = entries[j].display();
            s.append(line.as_str());
            s.append("\n");
            proof {
                assert(es[j as int] == entries@[j as int]@);
                assert(es.take(j + 1).drop_last() =~= es.take(j as int));
                assert(es.take(j + 1).last() == es[j as int]);
                assert(s@ =~= head + entry_lines(es.take(j + 1)));
            }
            j = j + 1;
        }
        assert(es.take(j as int) =~= es);
        s.append("----------------------------");
        assert(s@ =~= list_text(self@));
        s
    }
}

} // verus!
