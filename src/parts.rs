use vstd::prelude::*;
use crate::error::UploadError;

verus! {

broadcast use vstd::seq_lib::group_seq_properties;

/// A part the backend has accepted: its sequence number and the integrity tag
/// the backend assigned to it.
#[derive(Debug)]
pub struct CompletedPart {
    pub part_number: usize,
    pub e_tag: String,
}

impl View for CompletedPart {
    type V = (nat, Seq<char>);

    open spec fn view(&self) -> (nat, Seq<char>) {
        (self.part_number as nat, self.e_tag@)
    }
}

/// The parts of a list, each as (sequence number, tag).
pub open spec fn parts_view(ps: Seq<CompletedPart>) -> Seq<(nat, Seq<char>)> {
    ps.map_values(|p: CompletedPart| p@)
}

/// The sequence numbers of `ps` are exactly `1..=n`, in order.
pub open spec fn numbered_from_one(ps: Seq<(nat, Seq<char>)>, n: nat) -> bool {
    &&& ps.len() == n
    &&& forall|i: int| 0 <= i < ps.len() ==> (#[trigger] ps[i]).0 == i + 1
}

/// The list `ps` after the backend accepted part `p`: a part already under
/// that sequence number is replaced (the last upload wins), otherwise `p` goes
/// before the first part with a larger number.
pub open spec fn recorded(ps: Seq<(nat, Seq<char>)>, p: (nat, Seq<char>)) -> Seq<(nat, Seq<char>)>
    decreases ps.len(),
{
    if ps.len() == 0 {
        seq![p]
    } else if ps[0].0 == p.0 {
        seq![p] + ps.drop_first()
    } else if ps[0].0 > p.0 {
        seq![p] + ps
    } else {
        seq![ps[0]] + recorded(ps.drop_first(), p)
    }
}

/// Sending a part twice under one sequence number leaves the same list as
/// sending only the second upload: the last write wins.
pub proof fn lemma_record_last_write_wins(
    ps: Seq<(nat, Seq<char>)>,
    n: nat,
    first: Seq<char>,
    second: Seq<char>,
)
    ensures
        recorded(recorded(ps, (n, first)), (n, second)) == recorded(ps, (n, second)),
    decreases ps.len(),
{
    if ps.len() == 0 {
        assert(recorded(seq![(n, first)], (n, second)) =~= seq![(n, second)]);
    } else if ps[0].0 == n {
        assert((seq![(n, first)] + ps.drop_first()).drop_first() =~= ps.drop_first());
    } else if ps[0].0 > n {
        assert((seq![(n, first)] + ps).drop_first() =~= ps);
    } else {
        let rest = recorded(ps.drop_first(), (n, first));
        lemma_record_last_write_wins(ps.drop_first(), n, first, second);
        assert((seq![ps[0]] + rest).drop_first() =~= rest);
    }
}

/// `recorded` splits `ps` at the first part whose number is not below `p`'s.
proof fn lemma_recorded_split(ps: Seq<(nat, Seq<char>)>, p: (nat, Seq<char>), i: int)
    requires
        0 <= i <= ps.len(),
        forall|j: int| 0 <= j < i ==> (#[trigger] ps[j]).0 < p.0,
        i < ps.len() ==> ps[i].0 >= p.0,
    ensures
        i < ps.len() && ps[i].0 == p.0 ==> recorded(ps, p) == ps.take(i) + seq![p] + ps.skip(i + 1),
        !(i < ps.len() && ps[i].0 == p.0) ==> recorded(ps, p) == ps.take(i) + seq![p] + ps.skip(i),
    decreases i,
{
    if i == 0 {
        assert(ps.take(0) =~= Seq::<(nat, Seq<char>)>::empty());
        assert(ps.skip(0) =~= ps);
        if ps.len() > 0 {
            assert(ps.skip(1) =~= ps.drop_first());
        }
    } else {
        let rest = ps.drop_first();
        assert forall|j: int| 0 <= j < i - 1 implies (#[trigger] rest[j]).0 < p.0 by {
            assert(rest[j] == ps[j + 1]);
        }
        lemma_recorded_split(rest, p, i - 1);
        assert(ps.take(i) =~= seq![ps[0]] + rest.take(i - 1));
        assert(ps.skip(i) =~= rest.skip(i - 1));
        if i < ps.len() {
            assert(ps.skip(i + 1) =~= rest.skip(i));
        }
    }
}

/// A part numbered above every part of `ps` lands at the end.
pub proof fn lemma_recorded_after_all(ps: Seq<(nat, Seq<char>)>, p: (nat, Seq<char>))
    requires
        forall|j: int| 0 <= j < ps.len() ==> (#[trigger] ps[j]).0 < p.0,
    ensures
        recorded(ps, p) == ps.push(p),
{
    lemma_recorded_split(ps, p, ps.len() as int);
    assert(ps.take(ps.len() as int) =~= ps);
    assert(ps.skip(ps.len() as int) =~= Seq::<(nat, Seq<char>)>::empty());
    assert(ps.take(ps.len() as int) + seq![p] + ps.skip(ps.len() as int) =~= ps.push(p));
}

/// Enters `part` into `parts`, replacing a part with the same sequence
/// number and otherwise keeping the list ordered by sequence number.
pub fn record_part(parts: &mut Vec<CompletedPart>, part: CompletedPart)
    ensures
        parts_view(final(parts)@) == recorded(parts_view(old(parts)@), part@),
{
    let ghost ps = parts_view(parts@);
    let mut i: usize = 0;
    while i < parts.len() && parts[i].part_number < part.part_number
        invariant
            ps == parts_view(parts@),
            0 <= i <= parts.len(),
            forall|j: int| 0 <= j < i ==> (#[trigger] ps[j]).0 < part@.0,
        decreases parts.len() - i,
    {
        i = i + 1;
    }
    proof {
        lemma_recorded_split(ps, part@, i as int);
    }
    if i < parts.len() && parts[i].part_number == part.part_number {
        parts.remove(i);
        parts.insert(i, part);
        assert(parts_view(parts@) =~= ps.take(i as int) + seq![part@] + ps.skip(i + 1));
    } else {
        parts.insert(i, part);
        assert(parts_view(parts@) =~= ps.take(i as int) + seq![part@] + ps.skip(i as int));
    }
}

/// The part that a successful transfer of part `part_number` yields: one
/// carrying the tag the backend returned. A reply without a tag breaks the
/// protocol; no empty tag is put in its place.
pub fn completed_part(part_number: usize, e_tag: Option<String>) -> (r: Result<CompletedPart, UploadError>)
    ensures
        e_tag is None <==> r == Err::<CompletedPart, UploadError>(UploadError::ProtocolViolation),
        e_tag is Some ==> r is Ok && r->Ok_0.part_number == part_number && r->Ok_0.e_tag
            == e_tag->Some_0,
{
    match e_tag {
        Some(tag) => Ok(CompletedPart { part_number, e_tag: tag }),
        None => Err(UploadError::ProtocolViolation),
    }
}

/// A copy of `parts`, part by part.
pub fn copy_parts(parts: &Vec<CompletedPart>) -> (r: Vec<CompletedPart>)
    ensures
        parts_view(r@) == parts_view(parts@),
{
    let mut out: Vec<CompletedPart> = Vec::with_capacity(parts.len());
    let mut i: usize = 0;
    while i < parts.len()
        invariant
            0 <= i <= parts.len(),
            parts_view(out@) == parts_view(parts@).take(i as int),
        decreases parts.len() - i,
    {
        let p = CompletedPart { part_number: parts[i].part_number, e_tag: parts[i].e_tag.clone() };
        let ghost before = out@;
        out.push(p);
        assert(parts_view(out@) =~= parts_view(before).push(p@));
        assert(parts_view(out@) =~= parts_view(parts@).take(i + 1));
        i = i + 1;
    }
    assert(parts_view(parts@).take(parts.len() as int) =~= parts_view(parts@));
    out
}

} // verus!
