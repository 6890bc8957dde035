//! The record of the address translation that was set up: what is written when
//! a hotspot starts, so that it can be taken down whatever changed since.
use vstd::prelude::*;
use vstd::string::*;

use crate::text::{
    escape, escaped, join_lines, law_unescape_undoes_escape, lemma_split_pieces,
    lemma_split_unlines, lemma_texts_push, split, split_on, texts, unescape, unescaped, unlines,
};

verus! {

broadcast use vstd::string::group_string_axioms;

/// What address translation was set up for.
#[derive(Debug, Clone)]
pub struct NatRecord {
    pub upstream: String,
    pub ap_iface: String,
    pub gateway: String,
}

// ---------------------------------------------------------------------------
// Model
// ---------------------------------------------------------------------------

#[verifier::ext_equal]
pub struct NatRecordView {
    pub upstream: Seq<char>,
    pub ap_iface: Seq<char>,
    pub gateway: Seq<char>,
}

impl View for NatRecord {
    type V = NatRecordView;

    open spec fn view(&self) -> NatRecordView {
        NatRecordView {
            upstream: self.upstream@,
            ap_iface: self.ap_iface@,
            gateway: self.gateway@,
        }
    }
}

/// What a list of records says.
pub open spec fn record_views(v: Seq<NatRecord>) -> Seq<NatRecordView> {
    v.map_values(|r: NatRecord| r@)
}

/// The lines of one record.
pub open spec fn entry_lines(r: NatRecordView) -> Seq<Seq<char>> {
    seq![escaped(r.upstream), escaped(r.ap_iface), escaped(r.gateway)]
}

/// The text of one record.
pub open spec fn entry_text(r: NatRecordView) -> Seq<char> {
    unlines(entry_lines(r))
}

/// The lines of a list of records.
pub open spec fn record_lines(list: Seq<NatRecordView>) -> Seq<Seq<char>>
    decreases list.len(),
{
    if list.len() == 0 {
        Seq::empty()
    } else {
        entry_lines(list[0]) + record_lines(list.drop_first())
    }
}

/// The text of a list of records.
pub open spec fn records_text(list: Seq<NatRecordView>) -> Seq<char> {
    unlines(record_lines(list))
}

/// The record that three lines hold.
pub open spec fn entry_of(a: Seq<char>, b: Seq<char>, c: Seq<char>) -> Option<NatRecordView> {
    match (unescaped(a), unescaped(b), unescaped(c)) {
        (Some(upstream), Some(ap_iface), Some(gateway)) => Some(
            NatRecordView { upstream, ap_iface, gateway },
        ),
        _ => None,
    }
}

/// `head` before `tail`, if there is one.
pub open spec fn before(head: Seq<NatRecordView>, tail: Option<Seq<NatRecordView>>) -> Option<
    Seq<NatRecordView>,
> {
    match tail {
        Some(t) => Some(head + t),
        None => None,
    }
}

/// The records that lines hold, three lines each.
pub open spec fn records_in(lines: Seq<Seq<char>>) -> Option<Seq<NatRecordView>>
    decreases lines.len(),
{
    if lines.len() == 0 {
        Some(Seq::empty())
    } else if lines.len() < 3 {
        None
    } else {
        match entry_of(lines[0], lines[1], lines[2]) {
            Some(r) => before(seq![r], records_in(lines.skip(3))),
            None => None,
        }
    }
}

/// The records that a text holds, of which every line ends in a line feed.
pub open spec fn records_of(text: Seq<char>) -> Option<Seq<NatRecordView>> {
    let parts = split_on(text, '\n');
    if parts.last().len() == 0 {
        records_in(parts.drop_last())
    } else {
        None
    }
}

// ---------------------------------------------------------------------------
// Laws
// ---------------------------------------------------------------------------

/// The lines of a list of records hold no line feed and are read back.
proof fn lemma_lines_read_back(list: Seq<NatRecordView>)
    ensures
        records_in(record_lines(list)) == Some(list),
        forall|i: int|
            0 <= i < record_lines(list).len() ==> !(#[trigger] record_lines(list)[i]).contains(
                '\n',
            ),
    decreases list.len(),
{
    if list.len() > 0 {
        let r = list[0];
        let rest = list.drop_first();
        let all = record_lines(list);
        lemma_lines_read_back(rest);
        law_unescape_undoes_escape(r.upstream);
        law_unescape_undoes_escape(r.ap_iface);
        law_unescape_undoes_escape(r.gateway);
        assert(all.skip(3) =~= record_lines(rest));
        assert(seq![r] + rest =~= list);
        assert forall|i: int| 0 <= i < all.len() implies !(#[trigger] all[i]).contains('\n') by {
            if i >= 3 {
                assert(all[i] == record_lines(rest)[i - 3]);
            }
        }
    } else {
        assert(list =~= Seq::empty());
    }
}

/// What was written of a list of records is read back.
pub proof fn law_records_read_back(list: Seq<NatRecordView>)
    ensures
        records_of(records_text(list)) == Some(list),
{
    let lines = record_lines(list);
    lemma_lines_read_back(list);
    lemma_split_unlines(lines);
    assert(lines.push(Seq::empty()).drop_last() =~= lines);
}

/// The text of one list of lines and another.
proof fn lemma_unlines_add(a: Seq<Seq<char>>, b: Seq<Seq<char>>)
    ensures
        unlines(a + b) == unlines(a) + unlines(b),
    decreases b.len(),
{
    if b.len() == 0 {
        assert(a + b =~= a);
        assert(unlines(a) + unlines(b) =~= unlines(a));
    } else {
        lemma_unlines_add(a, b.drop_last());
        assert((a + b).drop_last() =~= a + b.drop_last());
        assert(unlines(a + b) =~= unlines(a) + unlines(b));
    }
}

/// Adding the text of a record to the end of what was written adds the record.
pub proof fn law_record_is_added(list: Seq<NatRecordView>, r: NatRecordView)
    ensures
        records_text(list.push(r)) == records_text(list) + entry_text(r),
{
    lemma_lines_added(list, r);
    lemma_unlines_add(record_lines(list), entry_lines(r));
}

proof fn lemma_lines_added(list: Seq<NatRecordView>, r: NatRecordView)
    ensures
        record_lines(list.push(r)) == record_lines(list) + entry_lines(r),
    decreases list.len(),
{
    let more = list.push(r);
    if list.len() == 0 {
        assert(more.drop_first() =~= Seq::empty());
        assert(record_lines(more.drop_first()) == Seq::<Seq<char>>::empty());
        assert(more[0] == r);
        assert(record_lines(more) =~= record_lines(list) + entry_lines(r));
    } else {
        lemma_lines_added(list.drop_first(), r);
        assert(more.drop_first() =~= list.drop_first().push(r));
        assert(record_lines(more) =~= record_lines(list) + entry_lines(r));
    }
}

// ---------------------------------------------------------------------------
// Operations
// ---------------------------------------------------------------------------

/// The text of the record that `ap_iface` was let out over `upstream` for the
/// network of `gateway`, to be added to the end of the file.
pub fn nat_record_text(upstream: &str, ap_iface: &str, gateway: &str) -> (res: String)
    ensures
        res@ == entry_text(
            NatRecordView { upstream: upstream@, ap_iface: ap_iface@, gateway: gateway@ },
        ),
{
    broadcast use lemma_texts_push;

    let mut lines: Vec<String> = Vec::new();
    lines.push(escape(upstream));
    lines.push(escape(ap_iface));
    lines.push(escape(gateway));
    assert(texts(lines@) =~= seq![escaped(upstream@), escaped(ap_iface@), escaped(gateway@)]);
    join_lines(&lines)
}

/// Reads the record that three lines hold.
fn read_entry(a: &str, b: &str, c: &str) -> (res: Option<NatRecord>)
    ensures
        match entry_of(a@, b@, c@) {
            Some(r) => res matches Some(v) && v@ == r,
            None => res is None,
        },
{
    match (unescape(a), unescape(b), unescape(c)) {
        (Some(upstream), Some(ap_iface), Some(gateway)) => Some(
            NatRecord { upstream, ap_iface, gateway },
        ),
        _ => None,
    }
}

/// Reads the records that a text holds.
pub fn read_nat_record(text: &str) -> (res: Option<Vec<NatRecord>>)
    ensures
        match records_of(text@) {
            Some(list) => res matches Some(v) && record_views(v@) == list,
            None => res is None,
        },
{
    let parts: Vec<String> = split(text, '\n');
    proof {
        lemma_split_pieces(text@, '\n');
    }
    let n: usize = parts.len() - 1;
    let ghost pieces = split_on(text@, '\n');
    let ghost lines = pieces.drop_last();
    assert(pieces.last() == parts@[n as int]@);
    if !parts[n].as_str().is_empty() {
        return None;
    }
    let mut res: Vec<NatRecord> = Vec::new();
    let mut i: usize = 0;
    proof {
        assert(lines.skip(0) =~= lines);
        assert(record_views(res@) =~= Seq::empty());
        if let Some(t) = records_in(lines) {
            assert(record_views(res@) + t =~= t);
        }
    }
    while i < n
        invariant
            i <= n,
            parts@.len() == n + 1,
            pieces == texts(parts@),
            lines == pieces.drop_last(),
            before(record_views(res@), records_in(lines.skip(i as int))) == records_in(lines),
            records_of(text@) == records_in(lines),
        decreases n - i,
    {
        let ghost rest = lines.skip(i as int);
        if n - i < 3 {
            return None;
        }
        assert(rest[0] == parts@[i as int]@);
        assert(rest[1] == parts@[i + 1]@);
        assert(rest[2] == parts@[i + 2]@);
        assert(rest.skip(3) =~= lines.skip(i + 3));
        match read_entry(parts[i].as_str(), parts[i + 1].as_str(), parts[i + 2].as_str()) {
            Some(r) => {
                let ghost old_views = record_views(res@);
                let ghost added = r@;
                res.push(r);
                proof {
                    assert(record_views(res@) =~= old_views.push(added));
                    if let Some(t) = records_in(lines.skip(i + 3)) {
                        assert(old_views + (seq![added] + t) =~= record_views(res@) + t);
                    }
                }
            },
            None => {
                return None;
            },
        }
        i = i + 3;
    }
    proof {
        assert(lines.skip(n as int) =~= Seq::empty());
        assert(record_views(res@) + Seq::<NatRecordView>::empty() =~= record_views(res@));
    }
    Some(res)
}

} // verus!
