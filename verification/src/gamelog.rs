use vstd::prelude::*;
use vstd::string::*;
use crate::text::{i32_text, spec_decimal};

verus! {

/// The append-only message history. The UI shows the most recent entries;
/// the simulation only ever appends.
#[derive(Debug)]
pub struct Gamelog {
    pub entries: Vec<String>,
}

/// The log as a sequence of character sequences, oldest first.
pub open spec fn log_view(log: Gamelog) -> Seq<Seq<char>> {
    log.entries@.map_values(|s: String| s@)
}

impl Gamelog {
    pub fn new() -> (r: Gamelog)
        ensures
            log_view(r) =~= Seq::<Seq<char>>::empty(),
    {
        Gamelog { entries: Vec::new() }
    }

    /// Appends one message; everything already logged stays as it was.
    pub fn push(&mut self, entry: String)
        ensures
            log_view(*final(self)) =~= log_view(*old(self)).push(entry@),
    {
        self.entries.push(entry);
    }
}

/// "A hits T, for N hp"
pub open spec fn msg_hits(a: Seq<char>, t: Seq<char>, dmg: int) -> Seq<char> {
    a + " hits "@ + t + ", for "@ + spec_decimal(dmg) + " hp"@
}

/// "A Unable to hurt T"
pub open spec fn msg_unable(a: Seq<char>, t: Seq<char>) -> Seq<char> {
    a + " Unable to hurt "@ + t
}

/// "I has been picked up"
pub open spec fn msg_picked_up(item: Seq<char>) -> Seq<char> {
    item + " has been picked up"@
}

/// "You drink the I, healing N hp"
pub open spec fn msg_drink(item: Seq<char>, heal: int) -> Seq<char> {
    "You drink the "@ + item + ", healing "@ + spec_decimal(heal) + " hp"@
}

/// "You dropped the I"
pub open spec fn msg_dropped(item: Seq<char>) -> Seq<char> {
    "You dropped the "@ + item
}

/// "You equip the I"
pub open spec fn msg_equip(item: Seq<char>) -> Seq<char> {
    "You equip the "@ + item
}

/// "You unequip the I"
pub open spec fn msg_unequip(item: Seq<char>) -> Seq<char> {
    "You unequip the "@ + item
}

pub fn hits_message(a: &String, t: &String, dmg: i32) -> (r: String)
    requires
        dmg >= 0,
    ensures
        r@ == msg_hits(a@, t@, dmg as int),
{
    let mut s = a.clone();
    s.append(" hits ");
    s.append(t.as_str());
    s.append(", for ");
    let d = i32_text(dmg);
    s.append(d.as_str());
    s.append(" hp");
    proof {
        assert(s@ =~= msg_hits(a@, t@, dmg as int));
    }
    s
}

pub fn unable_message(a: &String, t: &String) -> (r: String)
    ensures
        r@ == msg_unable(a@, t@),
{
    let mut s = a.clone();
    s.append(" Unable to hurt ");
    s.append(t.as_str());
    proof {
        assert(s@ =~= msg_unable(a@, t@));
    }
    s
}

pub fn picked_up_message(item: &String) -> (r: String)
    ensures
        r@ == msg_picked_up(item@),
{
    let mut s = item.clone();
    s.append(" has been picked up");
    proof {
        assert(s@ =~= msg_picked_up(item@));
    }
    s
}

pub fn drink_message(item: &String, heal: i32) -> (r: String)
    requires
        heal >= 0,
    ensures
        r@ == msg_drink(item@, heal as int),
{
    let mut s = String::from_str("You drink the ");
    s.append(item.as_str());
    s.append(", healing ");
    let d = i32_text(heal);
    s.append(d.as_str());
    s.append(" hp");
    proof {
        assert(s@ =~= msg_drink(item@, heal as int));
    }
    s
}

pub fn dropped_message(item: &String) -> (r: String)
    ensures
        r@ == msg_dropped(item@),
{
    let mut s = String::from_str("You dropped the ");
    s.append(item.as_str());
    proof {
        assert(s@ =~= msg_dropped(item@));
    }
    s
}

pub fn equip_message(item: &String) -> (r: String)
    ensures
        r@ == msg_equip(item@),
{
    let mut s = String::from_str("You equip the ");
    s.append(item.as_str());
    proof {
        assert(s@ =~= msg_equip(item@));
    }
    s
}

pub fn unequip_message(item: &String) -> (r: String)
    ensures
        r@ == msg_unequip(item@),
{
    let mut s = String::from_str("You unequip the ");
    s.append(item.as_str());
    proof {
        assert(s@ =~= msg_unequip(item@));
    }
    s
}

/// A log is a prefix of itself with anything appended.
pub proof fn lemma_log_prefix_concat(a: Seq<Seq<char>>, s: Seq<Seq<char>>)
    ensures
        a.is_prefix_of(a + s),
{
    assert(a =~= (a + s).subrange(0, a.len() as int));
}

/// Prefixes chain.
pub proof fn lemma_log_prefix_trans(a: Seq<Seq<char>>, b: Seq<Seq<char>>, c: Seq<Seq<char>>)
    requires
        a.is_prefix_of(b),
        b.is_prefix_of(c),
    ensures
        a.is_prefix_of(c),
{
    assert(a =~= c.subrange(0, a.len() as int));
}

/// A prefix stays a prefix when more is appended.
pub proof fn lemma_log_prefix_push(a: Seq<Seq<char>>, b: Seq<Seq<char>>, m: Seq<char>)
    requires
        a.is_prefix_of(b),
    ensures
        a.is_prefix_of(b.push(m)),
{
    assert(a =~= b.push(m).subrange(0, a.len() as int));
}

} // verus!
