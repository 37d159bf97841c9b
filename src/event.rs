use vstd::prelude::*;

verus! {

/// Room for one encoded record: two decimal numbers of up to 39 digits each,
/// a tab and a newline.
pub const LINE_CAPACITY: usize = 80;

/// What one allocation call cost: the size asked for and the time the
/// underlying allocator took, in nanoseconds.
#[derive(Clone, Copy, Debug, PartialEq, Eq, Structural)]
pub struct AllocationEvent {
    pub bytes_requested: usize,
    pub duration_nanos: u128,
}

pub open spec fn pow10(k: nat) -> nat
    decreases k,
{
    if k == 0 { 1 } else { 10 * pow10((k - 1) as nat) }
}

/// ASCII decimal digits of `n`, most significant first, without leading zeros.
pub open spec fn decimal(n: nat) -> Seq<u8>
    decreases n,
{
    if n < 10 {
        seq![(48 + n) as u8]
    } else {
        decimal(n / 10).push((48 + n % 10) as u8)
    }
}

/// The record of one event: `<bytes_requested>\t<duration_nanos>\n`.
pub open spec fn record_line(e: AllocationEvent) -> Seq<u8> {
    decimal(e.bytes_requested as nat) + seq![9u8] + decimal(e.duration_nanos as nat) + seq![10u8]
}

proof fn lemma_decimal_len(n: nat, k: nat)
    requires
        n < pow10(k),
        k >= 1,
    ensures
        1 <= decimal(n).len() <= k,
    decreases n,
{
    if n >= 10 {
        assert(k >= 2) by {
            if k == 1 {
                assert(pow10(1) == 10) by {
                    reveal_with_fuel(pow10, 2);
                }
            }
        }
        assert(n / 10 < pow10((k - 1) as nat)) by (nonlinear_arith)
            requires
                n < pow10(k),
                pow10(k) == 10 * pow10((k - 1) as nat),
        ;
        lemma_decimal_len(n / 10, (k - 1) as nat);
    }
}

proof fn lemma_u128_digits(n: u128)
    ensures
        1 <= decimal(n as nat).len() <= 39,
{
    assert(pow10(39) == 1_000_000_000_000_000_000_000_000_000_000_000_000_000) by {
        reveal_with_fuel(pow10, 40);
    }
    lemma_decimal_len(n as nat, 39);
}

proof fn lemma_decimal_digits(n: nat)
    ensures
        forall|j: int| 0 <= j < decimal(n).len() ==> 48 <= #[trigger] decimal(n)[j] <= 57,
    decreases n,
{
    if n >= 10 {
        lemma_decimal_digits(n / 10);
        let prefix = decimal(n / 10);
        assert forall|j: int| 0 <= j < decimal(n).len() implies 48 <= #[trigger] decimal(n)[j] <= 57 by {
            if j < prefix.len() {
                assert(decimal(n)[j] == prefix[j]);
            }
        }
    } else {
        assert(decimal(n)[0] == (48 + n) as u8);
    }
}

/// Every event is reported as exactly one line: its record ends in a newline,
/// holds no other, and has exactly one tab between its two numbers.
pub proof fn lemma_record_is_one_line(e: AllocationEvent)
    ensures
        record_line(e).last() == 10u8,
        forall|j: int| 0 <= j < record_line(e).len() - 1 ==> #[trigger] record_line(e)[j] != 10u8,
        record_line(e)[decimal(e.bytes_requested as nat).len() as int] == 9u8,
        forall|j: int| 0 <= j < record_line(e).len() && j != decimal(e.bytes_requested as nat).len()
            ==> #[trigger] record_line(e)[j] != 9u8,
{
    let b = decimal(e.bytes_requested as nat);
    let d = decimal(e.duration_nanos as nat);
    lemma_decimal_digits(e.bytes_requested as nat);
    lemma_decimal_digits(e.duration_nanos as nat);
    let line = record_line(e);
    assert forall|j: int| 0 <= j < line.len() - 1 implies #[trigger] line[j] != 10u8 && (j != b.len() ==> line[j] != 9u8) by {
        if j < b.len() {
            assert(line[j] == b[j]);
        } else if j > b.len() {
            assert(line[j] == d[j - b.len() - 1]);
        }
    }
}

/// Writes the decimal digits of `n` into `buf` from `at` on; returns where
/// they end.
fn write_decimal(buf: &mut [u8; LINE_CAPACITY], at: usize, n: u128) -> (end: usize)
    requires
        at + decimal(n as nat).len() <= LINE_CAPACITY,
    ensures
        end == at + decimal(n as nat).len(),
        final(buf)@.subrange(at as int, end as int) == decimal(n as nat),
        forall|j: int| 0 <= j < LINE_CAPACITY && !(at <= j < end) ==> final(buf)@[j] == old(buf)@[j],
    decreases n,
{
    let mut end = at;
    if n >= 10 {
        end = write_decimal(buf, at, n / 10);
    }
    let digit = (48 + n % 10) as u8;
    buf[end] = digit;
    proof {
        if n >= 10 {
            assert(buf@.subrange(at as int, end + 1) =~= decimal((n / 10) as nat).push(digit));
        } else {
            assert(buf@.subrange(at as int, end + 1) =~= seq![digit]);
        }
    }
    end + 1
}

impl AllocationEvent {
    /// The event for an allocation of `bytes_requested` bytes that took
    /// `duration_nanos` nanoseconds.
    pub fn new(bytes_requested: usize, duration_nanos: u128) -> (e: AllocationEvent)
        ensures
            e.bytes_requested == bytes_requested,
            e.duration_nanos == duration_nanos,
    {
        AllocationEvent { bytes_requested, duration_nanos }
    }

    /// Encodes this event's record line into `buf` and returns its length;
    /// the bytes past it are left as they were.
    pub fn encode_line(&self, buf: &mut [u8; LINE_CAPACITY]) -> (len: usize)
        ensures
            len == record_line(*self).len(),
            final(buf)@.subrange(0, len as int) == record_line(*self),
            forall|j: int| len <= j < LINE_CAPACITY ==> final(buf)@[j] == old(buf)@[j],
    {
        proof {
            lemma_u128_digits(self.bytes_requested as u128);
            lemma_u128_digits(self.duration_nanos);
        }
        let tab = write_decimal(buf, 0, self.bytes_requested as u128);
        let ghost b1 = *buf;
        buf[tab] = 9u8;
        let newline = write_decimal(buf, tab + 1, self.duration_nanos);
        let ghost b3 = *buf;
        buf[newline] = 10u8;
        proof {
            let bytes = decimal(self.bytes_requested as nat);
            let nanos = decimal(self.duration_nanos as nat);
            assert(b1@.subrange(0, tab as int) == bytes);
            assert forall|j: int| 0 <= j < tab implies buf@[j] == bytes[j] by {
                assert(b1@.subrange(0, tab as int)[j] == b1@[j]);
            }
            assert forall|j: int| tab < j < newline implies buf@[j] == nanos[j - tab - 1] by {
                assert(b3@.subrange(tab + 1, newline as int)[j - tab - 1] == b3@[j]);
            }
            assert(buf@.subrange(0, newline + 1) =~= record_line(*self));
        }
        newline + 1
    }
}

} // verus!
