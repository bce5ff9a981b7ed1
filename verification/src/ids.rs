//! Identifiers of dataflows, builds, sessions and daemons, and generated names.

use uuid::{NoContext, Timestamp, Uuid};
use vstd::prelude::*;

use crate::ordered::OrderedKey;
use crate::text::{
    copy_opt_text, enclosed, lemma_opt_text_order, opt_text, opt_text_before, opt_text_precedes,
    same_text,
};

verus! {

/// A dataflow's UUID, as a number.
pub type DataflowId = u128;

/// A build's UUID, as a number.
pub type BuildId = u128;

/// A session's UUID, as a number.
pub type SessionId = u128;

/// The name of a node within a dataflow.
pub type NodeId = String;

/// The name of an operator within a node.
pub type OperatorId = String;

/// The name of a node's output or input.
pub type DataId = String;

/// The lower-case hexadecimal digit for a number below 16.
pub open spec fn hex_digit(n: u128) -> char {
    if n < 10 {
        (n + 48) as char
    } else {
        (n + 87) as char
    }
}

/// The `k`-th of the 32 hexadecimal digits of an identifier, the most significant first.
pub open spec fn uuid_digit(id: u128, k: int) -> char {
    hex_digit((id >> ((4 * (31 - k)) as u128)) & 0xf)
}

/// The usual text of an identifier: its digits in groups of 8, 4, 4, 4 and 12.
pub open spec fn hyphenated(id: u128) -> Seq<char> {
    Seq::new(
        36,
        |i: int|
            if i == 8 || i == 13 || i == 18 || i == 23 {
                '-'
            } else if i < 8 {
                uuid_digit(id, i)
            } else if i < 13 {
                uuid_digit(id, i - 1)
            } else if i < 18 {
                uuid_digit(id, i - 2)
            } else if i < 23 {
                uuid_digit(id, i - 3)
            } else {
                uuid_digit(id, i - 4)
            },
    )
}

/// The version number that an identifier carries.
pub open spec fn uuid_version(id: u128) -> u128 {
    (id >> 76) & 0xf
}

/// Whether the two bits of an identifier that tell its layout name the standard one.
pub open spec fn uuid_standard_layout(id: u128) -> bool {
    (id >> 62) & 3 == 2
}

/// The milliseconds of a time since 1970, saturating at the largest 64-bit number.
pub open spec fn unix_millis(secs: u64, nanos: u32) -> int {
    let whole = if secs * 1000 > u64::MAX {
        u64::MAX as int
    } else {
        secs * 1000
    };
    let sum = whole + nanos as int / 1_000_000;
    if sum > u64::MAX {
        u64::MAX as int
    } else {
        sum
    }
}

/// The identifier that a text stands for, in any of the layouts that `uuid` reads.
pub uninterp spec fn parsed_uuid(text: Seq<char>) -> Option<u128>;

/// `uuid::Uuid::parse_str`: what it reads depends on the text alone and is called
/// [`parsed_uuid`]. It reads back the text that [`hyphenated`] describes, and nothing whose
/// length is not that of one of the four layouts (plain digits, hyphenated, in braces, and
/// with the `urn:uuid:` prefix).
#[verifier::external_body]
pub(crate) fn parse_uuid(text: &str) -> (r: Option<u128>)
    ensures
        r == parsed_uuid(text@),
        forall|id: u128| text@ == #[trigger] hyphenated(id) ==> r == Some(id),
        text@.len() != 32 && text@.len() != 36 && text@.len() != 38 && text@.len() != 45 ==> r
            is None,
{
    Uuid::parse_str(text).ok().map(|id| id.as_u128())
}

/// `uuid::Uuid`'s `Display`: the hyphenated layout in lower case.
#[verifier::external_body]
pub(crate) fn uuid_text(id: u128) -> (r: String)
    ensures
        r@ == hyphenated(id),
{
    Uuid::from_u128(id).to_string()
}

/// `uuid::Timestamp::now` without a counter: the seconds since 1970 and the nanoseconds
/// within the second. The reading itself is the machine's clock's; the call panics on a machine
/// whose clock stands before 1970.
#[verifier::external_body]
fn unix_now() -> (r: (u64, u32))
    ensures
        r.1 < 1_000_000_000,
{
    Timestamp::now(NoContext).to_unix()
}

/// `uuid::Uuid::new_v7` for a time without a counter: the upper 48 bits hold the time in
/// milliseconds, then come the version and the layout; the other bits are random.
#[verifier::external_body]
fn time_ordered_uuid(secs: u64, nanos: u32) -> (r: u128)
    ensures
        r >> 80 == unix_millis(secs, nanos) % 0x1_0000_0000_0000,
        uuid_version(r) == 7,
        uuid_standard_layout(r),
{
    Uuid::new_v7(Timestamp::from_unix(NoContext, secs, nanos)).as_u128()
}

/// `uuid::Uuid::new_v4`: the version and the layout are set; the other bits are random.
#[verifier::external_body]
fn random_uuid() -> (r: u128)
    ensures
        uuid_version(r) == 4,
        uuid_standard_layout(r),
{
    Uuid::new_v4().as_u128()
}

/// Whether a name is made of two words with a separator between them.
pub open spec fn two_words(name: Seq<char>, separator: Seq<char>) -> bool {
    exists|first: Seq<char>, second: Seq<char>|
        first.len() > 0 && second.len() > 0 && name == #[trigger] (first + separator + second)
}

/// `petname::petname`: a random name of so many words with the separator between them. Which
/// words they are is left to chance. There is no name of no words.
#[verifier::external_body]
fn petname(words: u8, separator: &str) -> (r: Option<String>)
    ensures
        r is Some == (words > 0),
        words == 2 ==> two_words(r->0@, separator@),
{
    petname::petname(words, separator)
}

/// Draws the identifier of a dataflow that is about to start. Identifiers drawn later sort
/// after earlier ones, as far as the clock tells milliseconds apart.
pub fn new_dataflow_id() -> (r: DataflowId)
    ensures
        uuid_version(r) == 7,
        uuid_standard_layout(r),
        exists|secs: u64, nanos: u32|
            r >> 80 == #[trigger] unix_millis(secs, nanos) % 0x1_0000_0000_0000,
{
    let (secs, nanos) = unix_now();
    time_ordered_uuid(secs, nanos)
}

/// An identifier that carries a later time is the greater one.
pub proof fn law_later_identifiers_sort_later(earlier: u128, later: u128)
    requires
        earlier >> 80 < later >> 80,
    ensures
        earlier < later,
{
    assert(earlier >> 80 < later >> 80 ==> earlier < later) by (bit_vector);
}

/// Draws a random identifier for a build.
pub fn new_build_id() -> (r: BuildId)
    ensures
        uuid_version(r) == 4,
        uuid_standard_layout(r),
{
    random_uuid()
}

/// Draws a name for a dataflow that was given none: two words joined by a hyphen.
pub fn new_dataflow_name() -> (r: Option<String>)
    ensures
        r is Some,
        two_words(r->0@, seq!['-']),
{
    proof {
        reveal_strlit("-");
        assert("-"@ =~= seq!['-']);
    }
    petname(2, "-")
}

/// What tells one daemon from another: the machine it was started for, if it was given one,
/// and a UUID.
#[derive(Debug)]
pub struct DaemonId {
    pub machine_id: Option<String>,
    pub uuid: u128,
}

impl Clone for DaemonId {
    fn clone(&self) -> (r: Self)
        ensures
            r == *self,
    {
        DaemonId { machine_id: copy_opt_text(&self.machine_id), uuid: self.uuid }
    }
}

/// How a daemon is written out: the machine and a hyphen, if it was given one, and the UUID.
pub open spec fn daemon_text(daemon: DaemonId) -> Seq<char> {
    match daemon.machine_id {
        Some(machine) => machine@ + "-"@ + hyphenated(daemon.uuid),
        None => hyphenated(daemon.uuid),
    }
}

impl DaemonId {
    /// How the daemon is written out.
    pub fn text(&self) -> (r: String)
        ensures
            r@ == daemon_text(*self),
    {
        match &self.machine_id {
            Some(machine) => enclosed(machine.as_str(), "-", uuid_text(self.uuid).as_str()),
            None => uuid_text(self.uuid),
        }
    }

    /// Whether the daemon was started for the given machine.
    pub fn matches_machine_id(&self, machine_id: &str) -> (r: bool)
        ensures
            r == (opt_text(self.machine_id) == Some(machine_id@)),
    {
        match &self.machine_id {
            Some(id) => same_text(id.as_str(), machine_id),
            None => false,
        }
    }
}

/// The order on pairs of an optional name and a number: by name, then by number.
pub open spec fn named_before(a: (Option<Seq<char>>, u128), b: (Option<Seq<char>>, u128)) -> bool {
    opt_text_before(a.0, b.0) || (a.0 == b.0 && a.1 < b.1)
}

/// The order on pairs of an optional name and a number is a strict total order.
pub proof fn lemma_named_order(
    a: (Option<Seq<char>>, u128),
    b: (Option<Seq<char>>, u128),
    c: (Option<Seq<char>>, u128),
)
    ensures
        !named_before(a, a),
        named_before(a, b) && named_before(b, c) ==> named_before(a, c),
        named_before(a, b) || named_before(b, a) || a == b,
{
    lemma_opt_text_order(a.0, b.0, c.0);
}

/// Whether the pair `(a_name, a_number)` comes before `(b_name, b_number)`.
pub(crate) fn named_precedes(
    a_name: &Option<String>,
    a_number: u128,
    b_name: &Option<String>,
    b_number: u128,
) -> (r: bool)
    ensures
        r == named_before((opt_text(*a_name), a_number), (opt_text(*b_name), b_number)),
{
    proof {
        lemma_opt_text_order(opt_text(*a_name), opt_text(*b_name), opt_text(*a_name));
    }
    if opt_text_precedes(a_name, b_name) {
        true
    } else if opt_text_precedes(b_name, a_name) {
        false
    } else {
        a_number < b_number
    }
}

impl OrderedKey for DaemonId {
    type Id = (Option<Seq<char>>, u128);

    open spec fn id(&self) -> (Option<Seq<char>>, u128) {
        (opt_text(self.machine_id), self.uuid)
    }

    open spec fn before(a: (Option<Seq<char>>, u128), b: (Option<Seq<char>>, u128)) -> bool {
        named_before(a, b)
    }

    proof fn lemma_order(
        a: (Option<Seq<char>>, u128),
        b: (Option<Seq<char>>, u128),
        c: (Option<Seq<char>>, u128),
    ) {
        lemma_named_order(a, b, c);
    }

    fn precedes(&self, other: &Self) -> (r: bool) {
        named_precedes(&self.machine_id, self.uuid, &other.machine_id, other.uuid)
    }
}

/// Of two identifiers with the same name the one with the smaller number comes first, and of two
/// with different names the one with the smaller name.
pub proof fn law_names_count_before_numbers(
    name: Option<Seq<char>>,
    other: Option<Seq<char>>,
    a: u128,
    b: u128,
)
    ensures
        named_before((name, a), (name, b)) <==> a < b,
        name != other ==> (named_before((name, a), (other, b)) <==> opt_text_before(name, other)),
{
    lemma_opt_text_order(name, other, name);
}

/// A daemon is written out as its identifier, behind the machine and a hyphen if it was started
/// for one.
pub proof fn law_daemons_are_written_out_with_their_machines(daemon: DaemonId)
    ensures
        daemon.machine_id is None ==> daemon_text(daemon).len() == 36,
        daemon_text(daemon).skip(daemon_text(daemon).len() - 36) == hyphenated(daemon.uuid),
        daemon.machine_id matches Some(machine) ==> daemon_text(daemon).len() == machine@.len() + 37
            && daemon_text(daemon).take(machine@.len() as int) == machine@
            && daemon_text(daemon)[machine@.len() as int] == '-',
{
    reveal_strlit("-");
    let text = daemon_text(daemon);
    assert(text.skip(text.len() - 36) =~= hyphenated(daemon.uuid));
    if let Some(machine) = daemon.machine_id {
        assert(text.take(machine@.len() as int) =~= machine@);
    }
}

/// A time counts in whole milliseconds: it lies in the millisecond that its count names, as long
/// as the count fits in 64 bits.
pub proof fn law_times_count_in_milliseconds(secs: u64, nanos: u32)
    requires
        nanos < 1_000_000_000,
        secs * 1000 + 999 <= u64::MAX,
    ensures
        unix_millis(secs, nanos) * 1_000_000 <= secs * 1_000_000_000 + nanos,
        secs * 1_000_000_000 + nanos < (unix_millis(secs, nanos) + 1) * 1_000_000,
{
}

} // verus!
