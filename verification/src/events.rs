//! The append-only event log and the mint/transfer records written to it.
//!
//! Each emission appends one line: a fixed marker for external indexers,
//! then one JSON object naming the standard (`nep141`), the record version
//! (`1.0.0`), the event kind, and the event data. The exact text of every
//! line is pinned down, character for character, up to the JSON encoding of
//! the embedded strings.

use vstd::prelude::*;
use vstd::string::StringExecFns;
use crate::decimal::dec_of;
use crate::decimal::u128_to_dec;

verus! {

/// A name for what `serde_json::to_string` returns on a string slice: the
/// double-quoted, escaped JSON string literal denoting it. It depends on
/// the characters alone.
pub uninterp spec fn json_string_of(s: Seq<char>) -> Seq<char>;

/// Relies on `serde_json::to_string` applied to a `&str`: it writes the
/// value as a double-quoted JSON string with its characters escaped, into a
/// fresh in-memory buffer, and for a string value it never reports an error.
#[verifier::external_body]
fn json_escape(s: &str) -> (r: String)
    ensures
        r@ == json_string_of(s@),
{
    serde_json::to_string(s).unwrap_or_default()
}

/// The data record of one mint: the credited account, the decimal amount,
/// and an optional memo.
pub struct FtMint {
    pub owner_id: String,
    pub amount: u128,
    pub memo: Option<String>,
}

impl View for FtMint {
    type V = (Seq<char>, u128, Option<Seq<char>>);

    open spec fn view(&self) -> (Seq<char>, u128, Option<Seq<char>>) {
        (self.owner_id@, self.amount, match self.memo {
            Some(m) => Some(m@),
            None => None,
        })
    }
}

/// The data record of one transfer: the debited account, the credited
/// account, the decimal amount, and an optional memo.
pub struct FtTransfer {
    pub old_owner_id: String,
    pub new_owner_id: String,
    pub amount: u128,
    pub memo: Option<String>,
}

impl View for FtTransfer {
    type V = (Seq<char>, Seq<char>, u128, Option<Seq<char>>);

    open spec fn view(&self) -> (Seq<char>, Seq<char>, u128, Option<Seq<char>>) {
        (self.old_owner_id@, self.new_owner_id@, self.amount, match self.memo {
            Some(m) => Some(m@),
            None => None,
        })
    }
}

/// The JSON object for one mint record.
pub open spec fn mint_item_json(e: (Seq<char>, u128, Option<Seq<char>>)) -> Seq<char> {
    "{\"owner_id\":"@ + json_string_of(e.0) + ",\"amount\":"@ + json_string_of(
        dec_of(e.1 as nat),
    ) + (match e.2 {
        Some(m) => ",\"memo\":"@ + json_string_of(m),
        None => Seq::<char>::empty(),
    }) + "}"@
}

/// The JSON object for one transfer record.
pub open spec fn transfer_item_json(e: (Seq<char>, Seq<char>, u128, Option<Seq<char>>)) -> Seq<
    char,
> {
    "{\"old_owner_id\":"@ + json_string_of(e.0) + ",\"new_owner_id\":"@ + json_string_of(e.1)
        + ",\"amount\":"@ + json_string_of(dec_of(e.2 as nat)) + (match e.3 {
        Some(m) => ",\"memo\":"@ + json_string_of(m),
        None => Seq::<char>::empty(),
    }) + "}"@
}

/// The comma-separated mint records of one emission.
pub open spec fn mint_items_json(es: Seq<(Seq<char>, u128, Option<Seq<char>>)>) -> Seq<char>
    decreases es.len(),
{
    if es.len() == 0 {
        Seq::<char>::empty()
    } else if es.len() == 1 {
        mint_item_json(es[0])
    } else {
        mint_items_json(es.drop_last()) + ","@ + mint_item_json(es.last())
    }
}

/// The comma-separated transfer records of one emission.
pub open spec fn transfer_items_json(
    es: Seq<(Seq<char>, Seq<char>, u128, Option<Seq<char>>)>,
) -> Seq<char>
    decreases es.len(),
{
    if es.len() == 0 {
        Seq::<char>::empty()
    } else if es.len() == 1 {
        transfer_item_json(es[0])
    } else {
        transfer_items_json(es.drop_last()) + ","@ + transfer_item_json(es.last())
    }
}

/// The full log line of one mint emission.
pub open spec fn mint_line(es: Seq<(Seq<char>, u128, Option<Seq<char>>)>) -> Seq<char> {
    "EVENT_JSON:{\"standard\":\"nep141\",\"version\":\"1.0.0\",\"event\":\"ft_mint\",\"data\":["@
        + mint_items_json(es) + "]}"@
}

/// The full log line of one transfer emission.
pub open spec fn transfer_line(
    es: Seq<(Seq<char>, Seq<char>, u128, Option<Seq<char>>)>,
) -> Seq<char> {
    "EVENT_JSON:{\"standard\":\"nep141\",\"version\":\"1.0.0\",\"event\":\"ft_transfer\",\"data\":["@
        + transfer_items_json(es) + "]}"@
}

/// The append-only sink the engine writes event lines to. It is never read
/// back by the engine; an embedder hands each line on to whatever indexes
/// them.
pub struct EventLog {
    pub lines: Vec<String>,
}

impl View for EventLog {
    type V = Seq<Seq<char>>;

    open spec fn view(&self) -> Seq<Seq<char>> {
        Seq::new(self.lines@.len(), |i: int| self.lines@[i]@)
    }
}

impl EventLog {
    /// An empty log.
    pub fn new() -> (r: EventLog)
        ensures
            r@ =~= Seq::<Seq<char>>::empty(),
    {
        EventLog { lines: Vec::new() }
    }

    /// Appends one record; nothing is ever removed or rewritten.
    pub fn append(&mut self, line: String)
        ensures
            final(self)@ =~= old(self)@.push(line@),
    {
        self.lines.push(line);
    }

    /// The number of lines logged so far.
    pub fn len(&self) -> (r: usize)
        ensures
            r == self@.len(),
    {
        self.lines.len()
    }

    /// One logged line.
    pub fn line(&self, i: usize) -> (r: &String)
        requires
            i < self@.len(),
        ensures
            r@ == self@[i as int],
    {
        &self.lines[i]
    }
}

fn mint_item_string(e: &FtMint) -> (r: String)
    ensures
        r@ == mint_item_json(e@),
{
    let mut s = "{\"owner_id\":".to_owned();
    let o = json_escape(e.owner_id.as_str());
    s.append(o.as_str());
    s.append(",\"amount\":");
    let d = u128_to_dec(e.amount);
    let a = json_escape(d.as_str());
    s.append(a.as_str());
    match &e.memo {
        Some(m) => {
            s.append(",\"memo\":");
            let me = json_escape(m.as_str());
            s.append(me.as_str());
        },
        None => {},
    }
    s.append("}");
    proof {
        assert(s@ =~= mint_item_json(e@));
    }
    s
}

fn transfer_item_string(e: &FtTransfer) -> (r: String)
    ensures
        r@ == transfer_item_json(e@),
{
    let mut s = "{\"old_owner_id\":".to_owned();
    let o = json_escape(e.old_owner_id.as_str());
    s.append(o.as_str());
    s.append(",\"new_owner_id\":");
    let n = json_escape(e.new_owner_id.as_str());
    s.append(n.as_str());
    s.append(",\"amount\":");
    let d = u128_to_dec(e.amount);
    let a = json_escape(d.as_str());
    s.append(a.as_str());
    match &e.memo {
        Some(m) => {
            s.append(",\"memo\":");
            let me = json_escape(m.as_str());
            s.append(me.as_str());
        },
        None => {},
    }
    s.append("}");
    proof {
        assert(s@ =~= transfer_item_json(e@));
    }
    s
}

/// The element views of a slice of mint records.
pub open spec fn mint_views(es: Seq<FtMint>) -> Seq<(Seq<char>, u128, Option<Seq<char>>)> {
    Seq::new(es.len(), |i: int| es[i]@)
}

/// The element views of a slice of transfer records.
pub open spec fn transfer_views(es: Seq<FtTransfer>) -> Seq<
    (Seq<char>, Seq<char>, u128, Option<Seq<char>>),
> {
    Seq::new(es.len(), |i: int| es[i]@)
}

impl FtMint {
    /// Logs this record alone, as one emission.
    pub fn emit(self, log: &mut EventLog)
        ensures
            final(log)@ =~= old(log)@.push(mint_line(seq![self@])),
    {
        let item = mint_item_string(&self);
        let mut s =
            "EVENT_JSON:{\"standard\":\"nep141\",\"version\":\"1.0.0\",\"event\":\"ft_mint\",\"data\":[".to_owned();
        s.append(item.as_str());
        s.append("]}");
        proof {
            assert(mint_items_json(seq![self@]) == mint_item_json(self@));
            assert(s@ =~= mint_line(seq![self@]));
        }
        log.append(s);
    }

    /// Logs a batch of mint records as one emission, one line carrying every
    /// record in order.
    pub fn emit_many(data: &[FtMint], log: &mut EventLog)
        ensures
            final(log)@ =~= old(log)@.push(mint_line(mint_views(data@))),
    {
        let mut items = String::new();
        let n = data.len();
        let mut i: usize = 0;
        while i < n
            invariant
                n == data@.len(),
                i <= n,
                items@ == mint_items_json(mint_views(data@).subrange(0, i as int)),
            decreases n - i,
        {
            if i > 0 {
                items.append(",");
            }
            let item = mint_item_string(&data[i]);
            items.append(item.as_str());
            proof {
                lemma_mint_items_step(mint_views(data@), i as int);
                assert(items@ =~= mint_items_json(
                    mint_views(data@).subrange(0, i as int + 1),
                ));
            }
            i += 1;
        }
        proof {
            assert(mint_views(data@).subrange(0, n as int) =~= mint_views(data@));
        }
        let mut s =
            "EVENT_JSON:{\"standard\":\"nep141\",\"version\":\"1.0.0\",\"event\":\"ft_mint\",\"data\":[".to_owned();
        s.append(items.as_str());
        s.append("]}");
        proof {
            assert(s@ =~= mint_line(mint_views(data@)));
        }
        log.append(s);
    }
}

impl FtTransfer {
    /// Logs this record alone, as one emission.
    pub fn emit(self, log: &mut EventLog)
        ensures
            final(log)@ =~= old(log)@.push(transfer_line(seq![self@])),
    {
        let item = transfer_item_string(&self);
        let mut s =
            "EVENT_JSON:{\"standard\":\"nep141\",\"version\":\"1.0.0\",\"event\":\"ft_transfer\",\"data\":[".to_owned();
        s.append(item.as_str());
        s.append("]}");
        proof {
            assert(transfer_items_json(seq![self@]) == transfer_item_json(self@));
            assert(s@ =~= transfer_line(seq![self@]));
        }
        log.append(s);
    }

    /// Logs a batch of transfer records as one emission, one line carrying
    /// every record in order.
    pub fn emit_many(data: &[FtTransfer], log: &mut EventLog)
        ensures
            final(log)@ =~= old(log)@.push(transfer_line(transfer_views(data@))),
    {
        let mut items = String::new();
        let n = data.len();
        let mut i: usize = 0;
        while i < n
            invariant
                n == data@.len(),
                i <= n,
                items@ == transfer_items_json(transfer_views(data@).subrange(0, i as int)),
            decreases n - i,
        {
            if i > 0 {
                items.append(",");
            }
            let item = transfer_item_string(&data[i]);
            items.append(item.as_str());
            proof {
                lemma_transfer_items_step(transfer_views(data@), i as int);
                assert(items@ =~= transfer_items_json(
                    transfer_views(data@).subrange(0, i as int + 1),
                ));
            }
            i += 1;
        }
        proof {
            assert(transfer_views(data@).subrange(0, n as int) =~= transfer_views(data@));
        }
        let mut s =
            "EVENT_JSON:{\"standard\":\"nep141\",\"version\":\"1.0.0\",\"event\":\"ft_transfer\",\"data\":[".to_owned();
        s.append(items.as_str());
        s.append("]}");
        proof {
            assert(s@ =~= transfer_line(transfer_views(data@)));
        }
        log.append(s);
    }
}

proof fn lemma_mint_items_step(es: Seq<(Seq<char>, u128, Option<Seq<char>>)>, i: int)
    requires
        0 <= i < es.len(),
    ensures
        i == 0 ==> mint_items_json(es.subrange(0, 1)) == mint_item_json(es[0]),
        i > 0 ==> mint_items_json(es.subrange(0, i + 1)) == mint_items_json(
            es.subrange(0, i),
        ) + ","@ + mint_item_json(es[i]),
{
    let q = es.subrange(0, i + 1);
    assert(q.drop_last() =~= es.subrange(0, i));
    assert(q.last() == es[i]);
}

proof fn lemma_transfer_items_step(
    es: Seq<(Seq<char>, Seq<char>, u128, Option<Seq<char>>)>,
    i: int,
)
    requires
        0 <= i < es.len(),
    ensures
        i == 0 ==> transfer_items_json(es.subrange(0, 1)) == transfer_item_json(es[0]),
        i > 0 ==> transfer_items_json(es.subrange(0, i + 1)) == transfer_items_json(
            es.subrange(0, i),
        ) + ","@ + transfer_item_json(es[i]),
{
    let q = es.subrange(0, i + 1);
    assert(q.drop_last() =~= es.subrange(0, i));
    assert(q.last() == es[i]);
}

} // verus!
