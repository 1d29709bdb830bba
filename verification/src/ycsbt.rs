//! The YCSB-T extension: a transaction that runs inside the database.
//!
//! The extension's arguments are a one-byte operation type, an eight-byte
//! little-endian table id and a key. Operation type 1 reads the key and
//! replies its value. Any other operation type reads two keys of
//! [`KEY_LEN`] bytes each, laid end to end, moves one unit between the first
//! bytes of their values, and writes both values back.
//!
//! The database drives the transaction: [`init`] gives a [`Txn`] at its start,
//! and each call of [`Txn::resume`] hands it what the database answered and
//! gets back the next [`Action`] for the database to carry out. A transaction
//! finishes with an action that returns a code to the database: 0 on success,
//! 1 on failure.

use vstd::prelude::*;
use vstd::arithmetic::power2::{
    pow2, lemma2_to64, lemma_pow2_adds, lemma_pow2_pos, lemma_pow2_strictly_increases,
};
use vstd::bits::lemma_u64_shl_is_mul;
use vstd::slice::slice_to_vec;
use vstd::string::StringSliceAdditionalSpecFns;

verus! {

/// The length of each of the two keys of a read-modify-write.
pub const KEY_LEN: u16 = 30;

/// The longest argument string that is refused: one operation byte, eight
/// table id bytes and a key of [`KEY_LEN`] bytes make 39.
pub const MAX_REFUSED_ARGS_LEN: usize = 38;

/// The operation type of a read.
pub const READ_OP: u8 = 1;

/// The value of a sequence of bytes read as a little-endian unsigned number.
pub open spec fn le_value(b: Seq<u8>) -> nat
    decreases b.len(),
{
    if b.len() == 0 {
        0
    } else {
        le_value(b.drop_last()) + (b.last() as nat) * pow2((8 * (b.len() - 1)) as nat)
    }
}

/// The reply to arguments that are too short.
pub open spec fn invalid_args_message() -> Seq<u8> {
    "Invalid args".spec_bytes()
}

/// The reply when an object to be read does not exist.
pub open spec fn missing_object_message() -> Seq<u8> {
    "Object does not exist".spec_bytes()
}

/// The reply when a read-modify-write cannot be completed.
pub open spec fn error_message() -> Seq<u8> {
    "Error".spec_bytes()
}

/// The two values of a read-modify-write after one unit has moved between
/// their first bytes: from the first to the second if the first is
/// positive, else from the second to the first if the second is positive;
/// two zero first bytes stay as they are.
pub open spec fn transferred(first: Seq<u8>, second: Seq<u8>) -> (Seq<u8>, Seq<u8>) {
    if first[0] > 0 {
        (first.update(0, (first[0] - 1) as u8), second.update(0, (second[0] + 1) as u8))
    } else if second[0] > 0 {
        (first.update(0, (first[0] + 1) as u8), second.update(0, (second[0] - 1) as u8))
    } else {
        (first, second)
    }
}

/// Whether a transfer between these two values can be made: both have a
/// first byte, and a unit moved to the second does not overflow it.
pub open spec fn can_transfer(first: Seq<u8>, second: Seq<u8>) -> bool {
    &&& first.len() > 0
    &&& second.len() > 0
    &&& first[0] > 0 ==> second[0] < 255
}

/// Where a transaction stands, as plain values.
#[verifier::ext_equal]
pub enum Phase {
    /// Waiting for the extension's arguments.
    Start,
    /// A read was asked for; waiting for the object.
    AwaitObject,
    /// Both keys of a read-modify-write were asked for; waiting for the objects.
    AwaitObjects { table: u64, keys: Seq<u8> },
    /// Waiting for a buffer for the first new value.
    AwaitFirstBuffer { table: u64, second_key: Seq<u8>, first: Seq<u8>, second: Seq<u8> },
    /// Waiting for a buffer for the second new value.
    AwaitSecondBuffer { first: Seq<u8>, second: Seq<u8> },
    /// Finished with the given return code.
    Done { code: u64 },
}

/// What the database answered, as plain values.
#[verifier::ext_equal]
pub enum EventView {
    Args(Seq<u8>),
    Object(Option<Seq<u8>>),
    Objects(Option<Seq<Seq<u8>>>),
    Allocated(bool),
}

/// What the transaction asks of the database, as plain values.
#[verifier::ext_equal]
pub enum ActionView {
    Get { table: u64, key: Seq<u8> },
    MultiGet { table: u64, key_len: u16, keys: Seq<u8> },
    Alloc { table: u64, key: Seq<u8>, len: u64 },
    Reply { message: Seq<u8>, code: u64 },
    Commit { first: Seq<u8>, second: Seq<u8> },
}

/// What the database answered.
pub enum Event {
    /// The extension's arguments.
    Args(Vec<u8>),
    /// The result of a get(): the object's value, if it exists.
    Object(Option<Vec<u8>>),
    /// The result of a multiget(): the objects' values in order, if they exist.
    Objects(Option<Vec<Vec<u8>>>),
    /// Whether an alloc() gave a buffer.
    Allocated(bool),
}

impl View for Event {
    type V = EventView;

    open spec fn view(&self) -> EventView {
        match self {
            Event::Args(a) => EventView::Args(a@),
            Event::Object(o) => EventView::Object(
                match o {
                    Some(v) => Some(v@),
                    None => None,
                },
            ),
            Event::Objects(o) => EventView::Objects(
                match o {
                    Some(vs) => Some(vs@.map_values(|v: Vec<u8>| v@)),
                    None => None,
                },
            ),
            Event::Allocated(b) => EventView::Allocated(*b),
        }
    }
}

/// What the transaction asks of the database.
pub enum Action {
    /// Look up `key` in `table`; answer with [`Event::Object`].
    Get { table: u64, key: Vec<u8> },
    /// Look up the keys of `key_len` bytes each laid end to end in `keys`;
    /// answer with [`Event::Objects`].
    MultiGet { table: u64, key_len: u16, keys: Vec<u8> },
    /// Allocate a buffer of `len` bytes for `key` in `table`; answer with
    /// [`Event::Allocated`].
    Alloc { table: u64, key: Vec<u8>, len: u64 },
    /// Respond with `message` and return `code`.
    Reply { message: Vec<u8>, code: u64 },
    /// Write `first` and `second` into the two allocated buffers, put both,
    /// and return 0.
    Commit { first: Vec<u8>, second: Vec<u8> },
}

impl View for Action {
    type V = ActionView;

    open spec fn view(&self) -> ActionView {
        match self {
            Action::Get { table, key } => ActionView::Get { table: *table, key: key@ },
            Action::MultiGet { table, key_len, keys } => ActionView::MultiGet {
                table: *table,
                key_len: *key_len,
                keys: keys@,
            },
            Action::Alloc { table, key, len } => ActionView::Alloc {
                table: *table,
                key: key@,
                len: *len,
            },
            Action::Reply { message, code } => ActionView::Reply { message: message@, code: *code },
            Action::Commit { first, second } => ActionView::Commit {
                first: first@,
                second: second@,
            },
        }
    }
}

/// Whether a transaction in phase `p` can take event `e`: the event answers
/// the action that led to `p`, and the values of a read-modify-write can be
/// transferred.
pub open spec fn accepts(p: Phase, e: EventView) -> bool {
    match (p, e) {
        (Phase::Start, EventView::Args(_)) => true,
        (Phase::AwaitObject, EventView::Object(_)) => true,
        (Phase::AwaitObjects { .. }, EventView::Objects(objects)) => match objects {
            Some(vals) => vals.len() == 2 ==> can_transfer(vals[0], vals[1]),
            None => true,
        },
        (Phase::AwaitFirstBuffer { .. }, EventView::Allocated(_)) => true,
        (Phase::AwaitSecondBuffer { .. }, EventView::Allocated(_)) => true,
        _ => false,
    }
}

/// Finishing with a reply of `message` and return code `code`.
pub open spec fn reply(message: Seq<u8>, code: u64) -> (Phase, ActionView) {
    (Phase::Done { code }, ActionView::Reply { message, code })
}

/// The next phase of a transaction in phase `p` that takes event `e`, and
/// the action it asks for. Only pairs that [`accepts`] admits are ever
/// taken; for any other pair the result is a placeholder.
pub open spec fn step(p: Phase, e: EventView) -> (Phase, ActionView) {
    match (p, e) {
        (Phase::Start, EventView::Args(args)) => {
            if args.len() <= MAX_REFUSED_ARGS_LEN {
                reply(invalid_args_message(), 1)
            } else {
                let table: u64 = le_value(args.subrange(1, 9)) as u64;
                let key = args.subrange(9, args.len() as int);
                if args[0] == READ_OP {
                    (Phase::AwaitObject, ActionView::Get { table, key })
                } else {
                    (
                        Phase::AwaitObjects { table, keys: key },
                        ActionView::MultiGet { table, key_len: KEY_LEN, keys: key },
                    )
                }
            }
        },
        (Phase::AwaitObject, EventView::Object(object)) => match object {
            Some(value) => reply(value, 0),
            None => reply(missing_object_message(), 1),
        },
        (Phase::AwaitObjects { table, keys }, EventView::Objects(objects)) => match objects {
            Some(vals) => {
                if vals.len() == 2 {
                    let (first, second) = transferred(vals[0], vals[1]);
                    (
                        Phase::AwaitFirstBuffer {
                            table,
                            second_key: keys.subrange(KEY_LEN as int, keys.len() as int),
                            first,
                            second,
                        },
                        ActionView::Alloc {
                            table,
                            key: keys.subrange(0, KEY_LEN as int),
                            len: first.len() as u64,
                        },
                    )
                } else {
                    reply(error_message(), 1)
                }
            },
            None => reply(missing_object_message(), 1),
        },
        (
            Phase::AwaitFirstBuffer { table, second_key, first, second },
            EventView::Allocated(ok),
        ) => {
            if ok {
                (
                    Phase::AwaitSecondBuffer { first, second },
                    ActionView::Alloc { table, key: second_key, len: second.len() as u64 },
                )
            } else {
                reply(error_message(), 1)
            }
        },
        (Phase::AwaitSecondBuffer { first, second }, EventView::Allocated(ok)) => {
            if ok {
                (Phase::Done { code: 0 }, ActionView::Commit { first, second })
            } else {
                reply(error_message(), 1)
            }
        },
        _ => (p, ActionView::Reply { message: Seq::empty(), code: 1 }),
    }
}

/// How many more events a transaction in phase `p` can take at most.
pub open spec fn remaining_steps(p: Phase) -> nat {
    match p {
        Phase::Start => 4,
        Phase::AwaitObject => 1,
        Phase::AwaitObjects { .. } => 3,
        Phase::AwaitFirstBuffer { .. } => 2,
        Phase::AwaitSecondBuffer { .. } => 1,
        Phase::Done { .. } => 0,
    }
}

/// Or-ing a byte shifted left by `s` bits into a number below 2^s adds the
/// byte times 2^s, and leaves a number below 2^(s + 8).
proof fn lemma_or_shifted_byte(t: u64, e: u8, s: u64)
    requires
        s <= 56,
        t < pow2(s as nat),
    ensures
        t | ((e as u64) << s) == t + (e as nat) * pow2(s as nat),
        t + (e as nat) * pow2(s as nat) < pow2((s + 8) as nat),
{
    lemma2_to64();
    lemma_pow2_pos(s as nat);
    lemma_pow2_adds(s as nat, 8);
    if s + 8 < 64 {
        lemma_pow2_strictly_increases((s + 8) as nat, 64);
    }
    assert((e as nat) * pow2(s as nat) <= 255 * pow2(s as nat)) by (nonlinear_arith)
        requires
            e <= 255,
    ;
    lemma_u64_shl_is_mul(e as u64, s);
    lemma_u64_shl_is_mul(1, s);
    assert(t < (1u64 << s) && s < 64 ==> t | ((e as u64) << s) == t + ((e as u64) << s))
        by (bit_vector);
}

/// The table id stored little-endian in `bytes`.
pub fn table_id(bytes: &[u8]) -> (table: u64)
    requires
        bytes@.len() <= 8,
    ensures
        table as nat == le_value(bytes@),
{
    let mut table: u64 = 0;
    let mut idx: usize = 0;
    proof {
        lemma2_to64();
    }
    while idx < bytes.len()
        invariant
            idx <= bytes@.len() <= 8,
            table as nat == le_value(bytes@.take(idx as int)),
            table < pow2((8 * idx) as nat),
        decreases bytes@.len() - idx,
    {
        let e: u8 = bytes[idx];
        let shift: u64 = (idx << 3) as u64;
        assert(idx < 8 ==> idx << 3 == idx * 8) by (bit_vector);
        proof {
            lemma_or_shifted_byte(table, e, shift);
            assert(bytes@.take(idx + 1).drop_last() =~= bytes@.take(idx as int));
        }
        table |= (e as u64) << shift;
        idx += 1;
    }
    assert(bytes@.take(idx as int) =~= bytes@);
    table
}

/// The arguments of a transaction.
pub struct TxnArgs {
    pub optype: u8,
    pub table: u64,
    pub key: Vec<u8>,
}

/// Splits the extension's arguments into the operation type (first byte),
/// the table id (next eight bytes, little-endian) and the key (the rest).
/// Arguments of [`MAX_REFUSED_ARGS_LEN`] bytes or fewer are refused.
pub fn parse_args(args: &[u8]) -> (parsed: Option<TxnArgs>)
    ensures
        args@.len() <= MAX_REFUSED_ARGS_LEN ==> parsed is None,
        args@.len() > MAX_REFUSED_ARGS_LEN ==> (parsed matches Some(a) && a.optype == args@[0]
            && a.table as nat == le_value(args@.subrange(1, 9)) && a.key@ == args@.subrange(
            9,
            args@.len() as int,
        )),
{
    // Check that the arguments received is long enough to contain an 1 bytes
    // operation type, 8 byte table id and a key to be looked up.
    if args.len() <= MAX_REFUSED_ARGS_LEN {
        return None;
    }
    let (op, rest) = args.split_at(1);
    let optype: u8 = op[0];
    // Next, split the arguments into a view over the table identifier
    // (first eight bytes), and a view over the key to be looked up.
    let (s_table, key) = rest.split_at(8);
    assert(s_table@ =~= args@.subrange(1, 9));
    assert(key@ =~= args@.subrange(9, args@.len() as int));
    let table: u64 = table_id(s_table);
    Some(TxnArgs { optype, table, key: slice_to_vec(key) })
}

/// Moves one unit between the first bytes of two values, as
/// [`transferred`] says.
pub fn transfer(first: &mut Vec<u8>, second: &mut Vec<u8>)
    requires
        can_transfer(old(first)@, old(second)@),
    ensures
        (final(first)@, final(second)@) == transferred(old(first)@, old(second)@),
        old(first)@[0] > 0 ==> final(first)@[0] == old(first)@[0] - 1 && final(second)@[0]
            == old(second)@[0] + 1,
        old(first)@[0] == 0 && old(second)@[0] > 0 ==> final(first)@[0] == 1 && final(second)@[0]
            == old(second)@[0] - 1,
        old(first)@[0] == 0 && old(second)@[0] == 0 ==> final(first)@ == old(first)@
            && final(second)@ == old(second)@,
        final(first)@.len() == old(first)@.len() && final(second)@.len() == old(second)@.len(),
        forall|i: int| 1 <= i < old(first)@.len() ==> final(first)@[i] == old(first)@[i],
        forall|i: int| 1 <= i < old(second)@.len() ==> final(second)@[i] == old(second)@[i],
{
    if first[0] > 0 {
        first[0] -= 1;
        second[0] += 1;
    } else if second[0] > 0 {
        second[0] -= 1;
        first[0] += 1;
    }
}

/// A transfer keeps the lengths of both values and every byte but the
/// first, and keeps the sum of the two first bytes: nothing is created or
/// lost, only moved.
pub proof fn lemma_transfer_conserves(first: Seq<u8>, second: Seq<u8>)
    requires
        can_transfer(first, second),
    ensures
        transferred(first, second).0.len() == first.len(),
        transferred(first, second).1.len() == second.len(),
        transferred(first, second).0[0] + transferred(first, second).1[0] == first[0] + second[0],
        forall|i: int| 1 <= i < first.len() ==> transferred(first, second).0[i] == first[i],
        forall|i: int| 1 <= i < second.len() ==> transferred(first, second).1[i] == second[i],
{
}

/// Every event a transaction takes brings it closer to its end: a
/// transaction takes at most four events.
pub proof fn lemma_step_progresses(p: Phase, e: EventView)
    requires
        accepts(p, e),
    ensures
        remaining_steps(step(p, e).0) < remaining_steps(p),
{
}

/// A finished transaction takes no more events.
pub proof fn lemma_done_is_final(code: u64, e: EventView)
    ensures
        !accepts(Phase::Done { code }, e),
{
}

/// A transaction asks the database for more work until it finishes, and it
/// finishes with the action that returns its code: a reply with that code,
/// or a commit, which returns 0. Every finished transaction returns 0 or 1.
pub proof fn lemma_finish(p: Phase, e: EventView)
    requires
        accepts(p, e),
    ensures
        ({
            let (next, action) = step(p, e);
            match next {
                Phase::Done { code } => {
                    &&& code == 0 || code == 1
                    &&& match action {
                        ActionView::Reply { code: c, .. } => c == code,
                        ActionView::Commit { .. } => code == 0,
                        _ => false,
                    }
                },
                _ => action is Get || action is MultiGet || action is Alloc,
            }
        }),
{
}

/// A read-modify-write that reads two values and gets both buffers commits
/// the two values after one unit moved between their first bytes: of the
/// same lengths, with the same bytes after the first, and the same sum of
/// first bytes.
pub proof fn lemma_commit_conserves(table: u64, keys: Seq<u8>, vals: Seq<Seq<u8>>)
    requires
        vals.len() == 2,
        can_transfer(vals[0], vals[1]),
    ensures
        ({
            let (p1, _) = step(Phase::AwaitObjects { table, keys }, EventView::Objects(Some(vals)));
            let (p2, _) = step(p1, EventView::Allocated(true));
            let (p3, action) = step(p2, EventView::Allocated(true));
            &&& p3 == Phase::Done { code: 0 }
            &&& action matches ActionView::Commit { first, second }
            &&& first.len() == vals[0].len() && second.len() == vals[1].len()
            &&& first[0] + second[0] == vals[0][0] + vals[1][0]
            &&& forall|i: int| 1 <= i < first.len() ==> first[i] == vals[0][i]
            &&& forall|i: int| 1 <= i < second.len() ==> second[i] == vals[1][i]
            &&& vals[0][0] > 0 ==> first[0] == vals[0][0] - 1 && second[0] == vals[1][0] + 1
            &&& vals[0][0] == 0 && vals[1][0] > 0 ==> first[0] == 1 && second[0] == vals[1][0] - 1
            &&& vals[0][0] == 0 && vals[1][0] == 0 ==> first == vals[0] && second == vals[1]
        }),
{
    lemma_transfer_conserves(vals[0], vals[1]);
    lemma_transfer_direction(vals[0], vals[1]);
}

/// The direction of a transfer: while the first value's first byte is
/// positive, one unit goes from it to the second; only when it is zero does
/// a unit come back from a positive second; two zeros stay as they are.
pub proof fn lemma_transfer_direction(first: Seq<u8>, second: Seq<u8>)
    requires
        can_transfer(first, second),
    ensures
        first[0] > 0 ==> transferred(first, second).0[0] == first[0] - 1
            && transferred(first, second).1[0] == second[0] + 1,
        first[0] == 0 && second[0] > 0 ==> transferred(first, second).0[0] == 1
            && transferred(first, second).1[0] == second[0] - 1,
        first[0] == 0 && second[0] == 0 ==> transferred(first, second) == (first, second),
        transferred(first, second).0[0] <= first[0] || first[0] == 0,
{
}

/// The two buffers of a read-modify-write are asked for under the two keys
/// of the transaction, the first [`KEY_LEN`] bytes and the rest, and each is
/// as long as the value that is committed into it.
pub proof fn lemma_read_modify_write_buffers(table: u64, keys: Seq<u8>, vals: Seq<Seq<u8>>)
    requires
        keys.len() >= KEY_LEN,
        vals.len() == 2,
        can_transfer(vals[0], vals[1]),
        vals[0].len() <= u64::MAX,
        vals[1].len() <= u64::MAX,
    ensures
        ({
            let (p1, a1) = step(Phase::AwaitObjects { table, keys }, EventView::Objects(Some(vals)));
            let (p2, a2) = step(p1, EventView::Allocated(true));
            let (p3, a3) = step(p2, EventView::Allocated(true));
            &&& a1 matches ActionView::Alloc { table: t1, key: k1, len: l1 }
            &&& a2 matches ActionView::Alloc { table: t2, key: k2, len: l2 }
            &&& a3 matches ActionView::Commit { first, second }
            &&& t1 == table && t2 == table
            &&& k1.len() == KEY_LEN && k1 + k2 == keys
            &&& l1 == first.len() && l2 == second.len()
            &&& l1 == vals[0].len() && l2 == vals[1].len()
        }),
{
    lemma_transfer_conserves(vals[0], vals[1]);
    assert(keys.subrange(0, KEY_LEN as int) + keys.subrange(KEY_LEN as int, keys.len() as int)
        =~= keys);
}

/// Arguments too short for an operation byte, a table id and a key of
/// [`KEY_LEN`] bytes are refused with return code 1; longer ones are not.
pub proof fn lemma_args_length(args: Seq<u8>)
    ensures
        args.len() < 1 + 8 + KEY_LEN ==> step(Phase::Start, EventView::Args(args)).0
            == (Phase::Done { code: 1 }),
        args.len() >= 1 + 8 + KEY_LEN ==> remaining_steps(step(Phase::Start, EventView::Args(args)).0) > 0,
{
}

/// A read asks for exactly the key its arguments end with: the arguments
/// are the operation byte, the eight bytes of the table id, then the key,
/// whatever its length.
pub proof fn lemma_read_asks_for_its_key(args: Seq<u8>)
    requires
        args.len() >= 1 + 8 + KEY_LEN,
        args[0] == READ_OP,
    ensures
        ({
            let (next, action) = step(Phase::Start, EventView::Args(args));
            &&& next == Phase::AwaitObject
            &&& action matches ActionView::Get { table, key }
            &&& args.subrange(0, 9) + key == args
            &&& table as nat == le_value(args.subrange(1, 9))
        }),
{
    assert(args.subrange(0, 9) + args.subrange(9, args.len() as int) =~= args);
    lemma_le_value_bound(args.subrange(1, 9));
    lemma2_to64();
}

/// Any other operation reads the keys its arguments end with, in
/// [`KEY_LEN`]-byte pieces, and keeps them for the write.
pub proof fn lemma_read_modify_write_asks_for_its_keys(args: Seq<u8>)
    requires
        args.len() >= 1 + 8 + KEY_LEN,
        args[0] != READ_OP,
    ensures
        ({
            let (next, action) = step(Phase::Start, EventView::Args(args));
            &&& next matches Phase::AwaitObjects { table: t, keys: kept }
            &&& action matches ActionView::MultiGet { table, key_len, keys }
            &&& key_len == KEY_LEN
            &&& kept == keys && t == table
            &&& args.subrange(0, 9) + keys == args
            &&& table as nat == le_value(args.subrange(1, 9))
        }),
{
    assert(args.subrange(0, 9) + args.subrange(9, args.len() as int) =~= args);
    lemma_le_value_bound(args.subrange(1, 9));
    lemma2_to64();
}

/// A read replies with code 0 exactly when the object exists, and then with
/// its value; a missing object gets code 1.
pub proof fn lemma_read_outcome(object: Option<Seq<u8>>)
    ensures
        ({
            let (next, action) = step(Phase::AwaitObject, EventView::Object(object));
            &&& action matches ActionView::Reply { message, code }
            &&& next == Phase::Done { code }
            &&& (code == 0) == (object is Some)
            &&& object matches Some(v) ==> message == v
            &&& object is None ==> code == 1
        }),
{
}

/// Every failure is answered with a message that says what went wrong:
/// "Invalid args" for arguments too short, "Object does not exist" when a
/// read finds no object, "Error" when a read-modify-write cannot be done.
pub proof fn lemma_failure_messages(args: Seq<u8>, table: u64, keys: Seq<u8>, vals: Seq<Seq<u8>>, p: Phase)
    ensures
        args.len() <= MAX_REFUSED_ARGS_LEN ==> step(Phase::Start, EventView::Args(args)).1
            == (ActionView::Reply { message: "Invalid args".spec_bytes(), code: 1 }),
        step(Phase::AwaitObject, EventView::Object(None)).1
            == (ActionView::Reply { message: "Object does not exist".spec_bytes(), code: 1 }),
        step(Phase::AwaitObjects { table, keys }, EventView::Objects(None)).1
            == (ActionView::Reply { message: "Object does not exist".spec_bytes(), code: 1 }),
        vals.len() != 2 ==> step(Phase::AwaitObjects { table, keys }, EventView::Objects(Some(vals))).1
            == (ActionView::Reply { message: "Error".spec_bytes(), code: 1 }),
        (p is AwaitFirstBuffer || p is AwaitSecondBuffer) ==> step(p, EventView::Allocated(false)).1
            == (ActionView::Reply { message: "Error".spec_bytes(), code: 1 }),
{
}

/// A little-endian value of `n` bytes is below 2^(8n).
pub proof fn lemma_le_value_bound(b: Seq<u8>)
    ensures
        le_value(b) < pow2((8 * b.len()) as nat),
    decreases b.len(),
{
    if b.len() == 0 {
        lemma2_to64();
    } else {
        let n = b.len();
        lemma_le_value_bound(b.drop_last());
        let p = pow2((8 * (n - 1)) as nat);
        lemma_pow2_adds((8 * (n - 1)) as nat, 8);
        lemma2_to64();
        let l = b.last() as nat;
        assert(l * p <= 255 * p) by (nonlinear_arith)
            requires
                l <= 255,
        ;
    }
}

/// Little-endian order: the first byte is the least significant, and the
/// rest counts in units of 256.
pub proof fn lemma_le_value_first_byte(b: Seq<u8>)
    requires
        b.len() > 0,
    ensures
        le_value(b) == b[0] + 256 * le_value(b.drop_first()),
    decreases b.len(),
{
    lemma2_to64();
    if b.len() == 1 {
        assert(b.drop_last() =~= Seq::<u8>::empty());
        assert(b.drop_first() =~= Seq::<u8>::empty());
        let l = b.last() as nat;
        let p = pow2(0);
        assert(l * p == l) by (nonlinear_arith)
            requires
                p == 1,
        ;
    } else {
        let n = b.len();
        lemma_le_value_first_byte(b.drop_last());
        assert(b.drop_last().drop_first() =~= b.drop_first().drop_last());
        assert(b.drop_first().last() == b.last());
        let q = pow2((8 * (n - 2)) as nat);
        lemma_pow2_adds((8 * (n - 2)) as nat, 8);
        assert(pow2((8 * (n - 1)) as nat) == q * 256);
        let l = b.last() as nat;
        assert(l * (q * 256) == 256 * (l * q)) by (nonlinear_arith);
        let r = le_value(b.drop_first().drop_last());
        assert(256 * (r + l * q) == 256 * r + 256 * (l * q)) by (nonlinear_arith);
    }
}

/// Where a transaction stands.
enum State {
    Start,
    AwaitObject,
    AwaitObjects { table: u64, keys: Vec<u8> },
    AwaitFirstBuffer { table: u64, second_key: Vec<u8>, first: Vec<u8>, second: Vec<u8> },
    AwaitSecondBuffer { first: Vec<u8>, second: Vec<u8> },
    Done { code: u64 },
}

spec fn phase_of(s: State) -> Phase {
    match s {
        State::Start => Phase::Start,
        State::AwaitObject => Phase::AwaitObject,
        State::AwaitObjects { table, keys } => Phase::AwaitObjects { table, keys: keys@ },
        State::AwaitFirstBuffer { table, second_key, first, second } => Phase::AwaitFirstBuffer {
            table,
            second_key: second_key@,
            first: first@,
            second: second@,
        },
        State::AwaitSecondBuffer { first, second } => Phase::AwaitSecondBuffer {
            first: first@,
            second: second@,
        },
        State::Done { code } => Phase::Done { code },
    }
}

/// The keys of a read-modify-write hold at least the first key.
spec fn state_wf(s: State) -> bool {
    match s {
        State::AwaitObjects { keys, .. } => keys@.len() >= KEY_LEN,
        _ => true,
    }
}

/// A YCSB-T transaction.
pub struct Txn {
    state: State,
}

impl View for Txn {
    type V = Phase;

    closed spec fn view(&self) -> Phase {
        phase_of(self.state)
    }
}

/// Starts a transaction: it waits for its arguments.
pub fn init() -> (txn: Txn)
    ensures
        txn@ == Phase::Start,
{
    Txn { state: State::Start }
}

/// Finishes with a reply of `message` and return code `code`.
fn finish(message: &[u8], code: u64) -> (r: (State, Action))
    ensures
        (phase_of(r.0), r.1@) == reply(message@, code),
{
    (State::Done { code }, Action::Reply { message: slice_to_vec(message), code })
}

/// Takes the extension's arguments.
fn take_args(args: Vec<u8>) -> (r: (State, Action))
    ensures
        state_wf(r.0),
        (phase_of(r.0), r.1@) == step(Phase::Start, EventView::Args(args@)),
{
    match parse_args(args.as_slice()) {
        None => finish("Invalid args".as_bytes(), 1),
        Some(a) => {
            if a.optype == READ_OP {
                (State::AwaitObject, Action::Get { table: a.table, key: a.key })
            } else {
                let keys = slice_to_vec(a.key.as_slice());
                (
                    State::AwaitObjects { table: a.table, keys },
                    Action::MultiGet { table: a.table, key_len: KEY_LEN, keys: a.key },
                )
            }
        },
    }
}

/// Takes the result of the read.
fn take_object(object: Option<Vec<u8>>) -> (r: (State, Action))
    ensures
        (phase_of(r.0), r.1@) == step(
            Phase::AwaitObject,
            Event::Object(object)@,
        ),
{
    match object {
        Some(val) => (State::Done { code: 0 }, Action::Reply { message: val, code: 0 }),
        None => finish("Object does not exist".as_bytes(), 1),
    }
}

/// Takes the result of the read of both keys of a read-modify-write.
fn take_objects(table: u64, keys: Vec<u8>, objects: Option<Vec<Vec<u8>>>) -> (r: (State, Action))
    requires
        keys@.len() >= KEY_LEN,
        accepts(Phase::AwaitObjects { table, keys: keys@ }, Event::Objects(objects)@),
    ensures
        (phase_of(r.0), r.1@) == step(
            Phase::AwaitObjects { table, keys: keys@ },
            Event::Objects(objects)@,
        ),
{
    match objects {
        Some(vals) => {
            if vals.len() == 2 {
                let ghost views = vals@.map_values(|v: Vec<u8>| v@);
                assert(views[0] == vals@[0]@ && views[1] == vals@[1]@);
                let mut value1 = slice_to_vec(vals[0].as_slice());
                let mut value2 = slice_to_vec(vals[1].as_slice());
                let (key1, key2) = keys.as_slice().split_at(KEY_LEN as usize);
                transfer(&mut value1, &mut value2);
                let len1: u64 = value1.len() as u64;
                (
                    State::AwaitFirstBuffer {
                        table,
                        second_key: slice_to_vec(key2),
                        first: value1,
                        second: value2,
                    },
                    Action::Alloc { table, key: slice_to_vec(key1), len: len1 },
                )
            } else {
                finish("Error".as_bytes(), 1)
            }
        },
        None => finish("Object does not exist".as_bytes(), 1),
    }
}

impl Txn {
    #[verifier::type_invariant]
    spec fn wf(self) -> bool {
        state_wf(self.state)
    }

    /// Hands the transaction what the database answered, and gets back what
    /// the transaction asks of the database next.
    pub fn resume(&mut self, event: Event) -> (action: Action)
        requires
            accepts(old(self)@, event@),
        ensures
            (final(self)@, action@) == step(old(self)@, event@),
    {
        proof {
            use_type_invariant(&*self);
        }
        let mut state = State::Done { code: 0 };
        std::mem::swap(&mut state, &mut self.state);
        let (next, action) = match state {
            State::Start => match event {
                Event::Args(args) => take_args(args),
                _ => unreached(),
            },
            State::AwaitObject => match event {
                Event::Object(object) => take_object(object),
                _ => unreached(),
            },
            State::AwaitObjects { table, keys } => match event {
                Event::Objects(objects) => take_objects(table, keys, objects),
                _ => unreached(),
            },
            State::AwaitFirstBuffer { table, second_key, first, second } => match event {
                Event::Allocated(ok) => {
                    if ok {
                        let len2: u64 = second.len() as u64;
                        (
                            State::AwaitSecondBuffer { first, second },
                            Action::Alloc { table, key: second_key, len: len2 },
                        )
                    } else {
                        finish("Error".as_bytes(), 1)
                    }
                },
                _ => unreached(),
            },
            State::AwaitSecondBuffer { first, second } => match event {
                Event::Allocated(ok) => {
                    if ok {
                        (State::Done { code: 0 }, Action::Commit { first, second })
                    } else {
                        finish("Error".as_bytes(), 1)
                    }
                },
                _ => unreached(),
            },
            State::Done { .. } => unreached(),
        };
        self.state = next;
        action
    }

    /// Whether the transaction has finished, and with which return code.
    pub fn result(&self) -> (code: Option<u64>)
        ensures
            code == (match self@ {
                Phase::Done { code } => Some(code),
                _ => None,
            }),
    {
        match &self.state {
            State::Done { code } => Some(*code),
            _ => None,
        }
    }
}

} // verus!
