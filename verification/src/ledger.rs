use vstd::prelude::*;
use vstd::pervasive::VecAdditionalExecFns;
use crate::error::VoteError;

verus! {

/// One voteable item: a stable 1-based id and its vote tally.
#[derive(Clone, Copy, Debug, PartialEq, Eq, Structural)]
pub struct Flavour {
    pub vote_count: u64,
    pub id: u64,
}

/// The ledger: the ordered, append-only list of options.
#[derive(Debug)]
pub struct FlavourAccount {
    pub flavours: Vec<Flavour>,
}

impl View for FlavourAccount {
    type V = Seq<Flavour>;

    open spec fn view(&self) -> Seq<Flavour> {
        self.flavours@
    }
}

/// A well-formed ledger: an option's position determines its id, 1-based.
pub open spec fn ledger_wf(s: Seq<Flavour>) -> bool {
    forall|i: int| 0 <= i < s.len() ==> #[trigger] s[i].id == i + 1
}

/// The option that an append to a ledger of length `n` creates.
pub open spec fn new_flavour(n: nat) -> Flavour {
    Flavour { vote_count: 0, id: (n + 1) as u64 }
}

/// Appending one option: the id is the previous length plus one.
pub open spec fn add_option_spec(s: Seq<Flavour>) -> Seq<Flavour> {
    s.push(new_flavour(s.len()))
}

/// A tally bump that saturates instead of wrapping.
pub open spec fn inc_sat(c: u64) -> u64 {
    if c == u64::MAX {
        c
    } else {
        (c + 1) as u64
    }
}

/// One vote for option `id`: only that option's tally moves, by one.
pub open spec fn record_vote_spec(s: Seq<Flavour>, id: int) -> Seq<Flavour>
    recommends
        1 <= id <= s.len(),
{
    s.update(id - 1, Flavour { vote_count: inc_sat(s[id - 1].vote_count), id: s[id - 1].id })
}

impl FlavourAccount {
    /// The empty ledger, the state a host creates the buffer in.
    pub fn empty() -> (r: FlavourAccount)
        ensures
            r@ == Seq::<Flavour>::empty(),
    {
        FlavourAccount { flavours: Vec::new() }
    }
}

/// Append a fresh option with a zero tally and the next id.
pub fn add_option(a: &mut FlavourAccount)
    requires
        old(a)@.len() < u64::MAX,
    ensures
        final(a)@ == add_option_spec(old(a)@),
{
    let n = a.flavours.len();
    a.flavours.push(Flavour { vote_count: 0, id: n as u64 + 1 });
}

/// Bump the tally of option `option_id`, or reject an id outside `1..=len`.
pub fn record_vote(a: &mut FlavourAccount, option_id: u64) -> (r: Result<(), VoteError>)
    ensures
        r is Ok <==> 1 <= option_id <= old(a)@.len(),
        r is Ok ==> final(a)@ == record_vote_spec(old(a)@, option_id as int),
        r is Err ==> final(a)@ == old(a)@ && r->Err_0 == VoteError::UnexpectedCandidate,
{
    let n = a.flavours.len();
    if option_id == 0 || option_id > n as u64 {
        return Err(VoteError::UnexpectedCandidate);
    }
    let idx = (option_id - 1) as usize;
    let f = a.flavours[idx];
    let newc = if f.vote_count == u64::MAX {
        f.vote_count
    } else {
        f.vote_count + 1
    };
    a.flavours.set(idx, Flavour { vote_count: newc, id: f.id });
    Ok(())
}

/// Appending keeps the ledger well-formed.
pub proof fn lemma_add_option_preserves_wf(s: Seq<Flavour>)
    requires
        ledger_wf(s),
        s.len() < u64::MAX,
    ensures
        ledger_wf(add_option_spec(s)),
{
}

/// Voting keeps the ledger well-formed: ids never move.
pub proof fn lemma_record_vote_preserves_wf(s: Seq<Flavour>, id: int)
    requires
        ledger_wf(s),
        1 <= id <= s.len(),
    ensures
        ledger_wf(record_vote_spec(s, id)),
{
}

/// The ledger that `n` appends starting from the empty ledger produce.
pub open spec fn add_options_from_empty(n: nat) -> Seq<Flavour>
    decreases n,
{
    if n == 0 {
        Seq::empty()
    } else {
        add_option_spec(add_options_from_empty((n - 1) as nat))
    }
}

/// Monotonic ids: after `n` appends starting from empty, the option at
/// position `i` carries id `i + 1`, for every `i` below `n`.
pub proof fn lemma_monotonic_ids(n: nat)
    requires
        n < u64::MAX,
    ensures
        add_options_from_empty(n).len() == n,
        forall|i: int| 0 <= i < n ==> #[trigger] add_options_from_empty(n)[i].id == i + 1,
    decreases n,
{
    if n > 0 {
        lemma_monotonic_ids((n - 1) as nat);
    }
}

} // verus!
