//! Retry arithmetic, `Retry-After` parsing, retryable HTTP statuses and
//! FNV-1a idempotency keys.
use vstd::prelude::*;

use crate::text::{hex_fixed, help_block, owned, push_hex_fixed, push_listing};

verus! {

/// Whether an HTTP status is conventionally retryable: 429, 502, 503, 504.
pub open spec fn retryable_status(status: u16) -> bool {
    status == 429 || status == 502 || status == 503 || status == 504
}

/// Return `true` if the HTTP status code is conventionally retryable.
pub fn is_retryable_status(status: u16) -> (b: bool)
    ensures
        b == retryable_status(status),
{
    status == 429 || status == 502 || status == 503 || status == 504
}

/// Largest number of nanoseconds a [`Delay`] holds (that of `u64::MAX`
/// seconds and 999 999 999 nanoseconds).
pub open spec fn max_delay_nanos() -> nat {
    18446744073709551615999999999
}

/// A span of time with nanosecond precision, as long as std's `Duration`.
#[derive(Debug, Clone, Copy, PartialEq, Eq, Structural)]
pub struct Delay {
    nanos: u128,
}

impl View for Delay {
    type V = nat;

    /// The span in nanoseconds.
    closed spec fn view(&self) -> nat {
        self.nanos as nat
    }
}

impl Delay {
    #[verifier::type_invariant]
    spec fn wf(self) -> bool {
        self.nanos <= max_delay_nanos()
    }

    /// The empty span.
    pub fn zero() -> (d: Delay)
        ensures
            d@ == 0,
    {
        Delay { nanos: 0 }
    }

    /// A span of whole seconds.
    pub fn from_secs(secs: u64) -> (d: Delay)
        ensures
            d@ == secs * 1_000_000_000,
    {
        Delay { nanos: secs as u128 * 1_000_000_000 }
    }

    /// A span of whole milliseconds.
    pub fn from_millis(millis: u64) -> (d: Delay)
        ensures
            d@ == millis * 1_000_000,
    {
        Delay { nanos: millis as u128 * 1_000_000 }
    }

    /// A span of seconds and nanoseconds, as `Duration::new`: nanoseconds
    /// past a second carry into the seconds.
    pub fn new(secs: u64, nanos: u32) -> (d: Delay)
        requires
            secs * 1_000_000_000 + nanos <= max_delay_nanos(),
        ensures
            d@ == secs * 1_000_000_000 + nanos,
    {
        Delay { nanos: secs as u128 * 1_000_000_000 + nanos as u128 }
    }

    /// A span of the given nanoseconds.
    pub fn from_nanos_total(nanos: u128) -> (d: Delay)
        requires
            nanos <= max_delay_nanos(),
        ensures
            d@ == nanos,
    {
        Delay { nanos }
    }

    /// The whole seconds of the span.
    pub fn as_secs(&self) -> (s: u64)
        ensures
            s == self@ / 1_000_000_000,
    {
        proof {
            use_type_invariant(self);
        }
        (self.nanos / 1_000_000_000) as u64
    }

    /// The nanoseconds past the whole seconds.
    pub fn subsec_nanos(&self) -> (n: u32)
        ensures
            n == self@ % 1_000_000_000,
    {
        (self.nanos % 1_000_000_000) as u32
    }

    /// The whole milliseconds of the span, or `u64::MAX` when they do not fit.
    pub fn millis_saturating(&self) -> (m: u64)
        ensures
            m == millis_saturating(*self),
    {
        let ms = self.nanos / 1_000_000;
        if ms <= 18446744073709551615u128 {
            ms as u64
        } else {
            18446744073709551615u64
        }
    }

    /// The span in nanoseconds; never more than `max_delay_nanos()`.
    pub fn total_nanos(&self) -> (n: u128)
        ensures
            n == self@,
            n <= max_delay_nanos(),
    {
        proof {
            use_type_invariant(self);
        }
        self.nanos
    }
}

/// Whole milliseconds of a delay, saturating at `u64::MAX`.
pub open spec fn millis_saturating(d: Delay) -> nat {
    if d@ / 1_000_000 <= u64::MAX {
        d@ / 1_000_000
    } else {
        u64::MAX as nat
    }
}

/// `2^attempt`, saturating at `u64::MAX`.
pub open spec fn pow2_saturating(attempt: nat) -> nat {
    if vstd::arithmetic::power2::pow2(attempt) <= u64::MAX {
        vstd::arithmetic::power2::pow2(attempt)
    } else {
        u64::MAX as nat
    }
}

/// `a * b`, saturating at `u64::MAX`.
pub open spec fn mul_saturating(a: nat, b: nat) -> nat {
    if a * b <= u64::MAX {
        a * b
    } else {
        u64::MAX as nat
    }
}

fn saturating_mul_u64(a: u64, b: u64) -> (r: u64)
    ensures
        r == mul_saturating(a as nat, b as nat),
{
    match a.checked_mul(b) {
        Some(v) => v,
        None => u64::MAX,
    }
}

/// Exponential back-off before jitter, in milliseconds:
/// `base * 2^attempt`, each step saturating at `u64::MAX`.
pub open spec fn backoff_ms(base_ms: nat, attempt: nat) -> nat {
    mul_saturating(base_ms, pow2_saturating(attempt))
}

/// Why the delays of a retry configuration are out of range.
#[derive(Debug, Clone, Copy, PartialEq, Eq, Structural)]
pub enum RetryDelayError {
    /// The maximum delay is zero (it would silently drop server
    /// `retry_after` hints).
    MaxDelayIsZero,
    /// The base delay exceeds the maximum delay.
    BaseDelayExceedsMaxDelay {
        /// The given base delay.
        base: Delay,
        /// The given maximum delay.
        max: Delay,
    },
}

/// The delays of a normalized retry configuration, as `(base, max)`: the
/// maximum floored to one millisecond, the base capped at that maximum.
pub fn normalize_retry_delays(base: Delay, max: Delay) -> (r: (Delay, Delay))
    ensures
        r.1@ == if max@ < 1_000_000 {
            1_000_000
        } else {
            max@
        },
        r.0@ == if base@ <= r.1@ {
            base@
        } else {
            r.1@
        },
{
    let one_ms = Delay::from_millis(1);
    let max = if max.total_nanos() < one_ms.total_nanos() {
        one_ms
    } else {
        max
    };
    let base = if base.total_nanos() <= max.total_nanos() {
        base
    } else {
        max
    };
    (base, max)
}

/// Checks the delays of a strict retry configuration: the maximum must not
/// be zero, and the base must not exceed it.
pub fn check_retry_delays(base: Delay, max: Delay) -> (r: Result<(), RetryDelayError>)
    ensures
        max@ == 0 ==> r == Err::<(), RetryDelayError>(RetryDelayError::MaxDelayIsZero),
        max@ != 0 && base@ > max@ ==> r == Err::<(), RetryDelayError>(
            RetryDelayError::BaseDelayExceedsMaxDelay { base, max },
        ),
        max@ != 0 && base@ <= max@ ==> r is Ok,
{
    if max.total_nanos() == 0 {
        Err(RetryDelayError::MaxDelayIsZero)
    } else if base.total_nanos() > max.total_nanos() {
        Err(RetryDelayError::BaseDelayExceedsMaxDelay { base, max })
    } else {
        Ok(())
    }
}

/// Exponential back-off before jitter for the given base delay.
pub fn backoff_raw_ms(base_delay: Delay, attempt: u32) -> (ms: u64)
    ensures
        ms == backoff_ms(millis_saturating(base_delay), attempt as nat),
{
    let base_ms = base_delay.millis_saturating();
    let mut exp: u64 = 1;
    let mut i: u32 = 0;
    proof {
        vstd::arithmetic::power2::lemma_pow2(0);
        assert(vstd::arithmetic::power::pow(2, 0) == 1) by {
            vstd::arithmetic::power::lemma_pow0(2);
        }
    }
    while i < attempt && exp < u64::MAX
        invariant
            i <= attempt,
            exp == pow2_saturating(i as nat),
        decreases attempt - i,
    {
        proof {
            vstd::arithmetic::power2::lemma_pow2_unfold((i + 1) as nat);
        }
        exp = saturating_mul_u64(exp, 2);
        i = i + 1;
    }
    proof {
        if i < attempt {
            vstd::arithmetic::power2::lemma_pow2_strictly_increases(i as nat, attempt as nat);
        }
    }
    saturating_mul_u64(base_ms, exp)
}

/// The delay before retry number `attempt`: none once `attempt` reaches
/// `max_retries`; otherwise the jittered back-off or the server's
/// `Retry-After`, whichever is longer, capped at `max_ms`, in milliseconds.
pub open spec fn retry_delay_ms(
    max_retries: nat,
    attempt: nat,
    raw_ms: nat,
    jitter_ms: nat,
    retry_after_ms: nat,
    max_ms: nat,
) -> Option<nat> {
    if attempt >= max_retries {
        None
    } else {
        let jittered = if raw_ms + jitter_ms <= u64::MAX {
            raw_ms + jitter_ms
        } else {
            u64::MAX as nat
        };
        let longer = if jittered >= retry_after_ms {
            jittered
        } else {
            retry_after_ms
        };
        Some(
            if longer <= max_ms {
                longer
            } else {
                max_ms
            },
        )
    }
}

/// Finishes a retry delay from its integer parts: `raw_ms` is the back-off
/// ([`backoff_raw_ms`]), `jitter_ms` the jitter drawn on top of it.
pub fn finish_retry_delay(
    max_retries: u32,
    attempt: u32,
    raw_ms: u64,
    jitter_ms: u64,
    retry_after: Option<Delay>,
    max_delay: Delay,
) -> (d: Option<Delay>)
    ensures
        match retry_delay_ms(
            max_retries as nat,
            attempt as nat,
            raw_ms as nat,
            jitter_ms as nat,
            match retry_after {
                Some(r) => millis_saturating(r),
                None => 0,
            },
            millis_saturating(max_delay),
        ) {
            Some(ms) => d matches Some(x) && x@ == ms * 1_000_000,
            None => d is None,
        },
{
    if attempt >= max_retries {
        return None;
    }
    let jittered = match raw_ms.checked_add(jitter_ms) {
        Some(v) => v,
        None => u64::MAX,
    };
    let retry_after_ms: u64 = match retry_after {
        Some(r) => r.millis_saturating(),
        None => 0,
    };
    let max_ms = max_delay.millis_saturating();
    let longer = if jittered >= retry_after_ms {
        jittered
    } else {
        retry_after_ms
    };
    let capped = if longer <= max_ms {
        longer
    } else {
        max_ms
    };
    Some(Delay::from_millis(capped))
}

/// An opaque idempotency key derived from operation inputs.
#[derive(Debug, Clone, PartialEq, Eq, Hash)]
pub struct IdempotencyKey(pub String);

/// FNV-1a offset basis.
pub const FNV_OFFSET_BASIS: u64 = 0xcbf2_9ce4_8422_2325;

/// FNV-1a prime.
pub const FNV_PRIME: u64 = 0x0000_0100_0000_01b3;

/// The 64-bit FNV-1a hash: start at the offset basis; for each byte, xor it
/// in and multiply by the prime, wrapping.
pub open spec fn fnv1a(data: Seq<u8>) -> u64
    decreases data.len(),
{
    if data.len() == 0 {
        FNV_OFFSET_BASIS
    } else {
        (fnv1a(data.drop_last()) ^ (data.last() as u64)).wrapping_mul(FNV_PRIME)
    }
}

/// The 64-bit FNV-1a hash of `data`.
pub fn fnv1a_64(data: &[u8]) -> (h: u64)
    ensures
        h == fnv1a(data@),
{
    let mut hash = FNV_OFFSET_BASIS;
    let mut i: usize = 0;
    while i < data.len()
        invariant
            i <= data.len(),
            hash == fnv1a(data@.take(i as int)),
        decreases data.len() - i,
    {
        assert(data@.take(i + 1).drop_last() =~= data@.take(i as int));
        hash = (hash ^ (data[i] as u64)).wrapping_mul(FNV_PRIME);
        i = i + 1;
    }
    assert(data@.take(data.len() as int) =~= data@);
    hash
}

/// FNV-1a folds in every byte, however long the input: the empty input
/// hashes to the offset basis `0xcbf29ce484222325`, and appending a byte
/// xors it into the hash so far and multiplies by the prime `0x100000001b3`
/// modulo 2^64.
pub proof fn law_fnv1a_folds_every_byte(data: Seq<u8>, b: u8)
    ensures
        fnv1a(Seq::<u8>::empty()) == 0xcbf2_9ce4_8422_2325u64,
        fnv1a(data.push(b)) == (((fnv1a(data) ^ (b as u64)) as nat * 0x100_0000_01b3nat)
            % 0x1_0000_0000_0000_0000nat) as u64,
{
    assert(data.push(b).drop_last() =~= data);
    assert(data.push(b).last() == b);
}

/// The key text for an operation and its input: `operation:` followed by
/// the FNV-1a hash of the input as sixteen lowercase hex digits.
pub open spec fn hashed_key(operation: Seq<char>, data: Seq<u8>) -> Seq<char> {
    operation + seq![':'] + hex_fixed(fnv1a(data) as nat, 16)
}

impl IdempotencyKey {
    /// A key from any string.
    pub fn new(s: String) -> (k: Self)
        ensures
            k.0 == s,
    {
        IdempotencyKey(s)
    }

    /// The raw key string.
    pub fn as_str(&self) -> (s: &str)
        ensures
            s@ == self.0@,
    {
        self.0.as_str()
    }

    /// A key from an operation name and its raw input bytes.
    pub fn from_hash(operation: &str, data: &[u8]) -> (k: Self)
        ensures
            k.0@ == hashed_key(operation@, data@),
    {
        let mut s = String::new();
        s.append(operation);
        s.push(':');
        push_hex_fixed(&mut s, fnv1a_64(data), 16);
        IdempotencyKey(s)
    }
}

impl From<String> for IdempotencyKey {
    fn from(s: String) -> Self {
        IdempotencyKey(s)
    }
}

impl vstd::std_specs::convert::FromSpecImpl<String> for IdempotencyKey {
    open spec fn obeys_from_spec() -> bool {
        true
    }

    open spec fn from_spec(s: String) -> Self {
        IdempotencyKey(s)
    }
}

impl<'a> From<&'a str> for IdempotencyKey {
    fn from(s: &'a str) -> (k: Self)
        ensures
            k.0@ == s@,
    {
        IdempotencyKey(owned(s))
    }
}

impl<'a> vstd::std_specs::convert::FromSpecImpl<&'a str> for IdempotencyKey {
    open spec fn obeys_from_spec() -> bool {
        false
    }

    open spec fn from_spec(s: &'a str) -> Self {
        arbitrary()
    }
}

/// Result of an idempotency check.
#[derive(Debug, Clone, PartialEq)]
#[non_exhaustive]
pub enum AlreadyDone {
    /// The operation completed in a previous call.
    Yes {
        /// The previously stored result.
        result: String,
    },
    /// Not seen before: proceed.
    No,
}

/// Check whether an operation has already completed.
pub fn already_done(stored: Option<String>) -> (r: AlreadyDone)
    ensures
        match stored {
            Some(s) => r == AlreadyDone::Yes { result: s },
            None => r == AlreadyDone::No,
        },
{
    match stored {
        Some(result) => AlreadyDone::Yes { result },
        None => AlreadyDone::No,
    }
}

/// The text of an already-done response.
pub open spec fn already_done_text(operation: Seq<char>, summary: Seq<char>, hints: Seq<Seq<char>>) -> Seq<char> {
    "operation: "@ + operation + "\nstatus:    already_done\nsummary:   "@ + summary + seq!['\n']
        + help_block(hints)
}

/// Render an already-done response.
pub fn render_already_done(operation: &str, summary: &str, hints: &[String]) -> (s: String)
    ensures
        s@ == already_done_text(operation@, summary@, hints@.map_values(|h: String| h@)),
{
    let mut out = String::new();
    out.append("operation: ");
    out.append(operation);
    out.append("\nstatus:    already_done\nsummary:   ");
    out.append(summary);
    out.push('\n');
    push_listing(&mut out, "help", hints);
    out
}

/// Back-off never shrinks from one attempt to the next, and below
/// saturation it is exactly `base * 2^attempt`.
pub proof fn law_backoff_growth(base_ms: nat, attempt: nat)
    ensures
        backoff_ms(base_ms, attempt) <= backoff_ms(base_ms, attempt + 1),
        backoff_ms(base_ms, attempt) <= u64::MAX,
        base_ms * vstd::arithmetic::power2::pow2(attempt) <= u64::MAX ==> backoff_ms(base_ms, attempt)
            == base_ms * vstd::arithmetic::power2::pow2(attempt),
{
    let p = vstd::arithmetic::power2::pow2(attempt);
    let q = vstd::arithmetic::power2::pow2(attempt + 1);
    vstd::arithmetic::power2::lemma_pow2_unfold(attempt + 1);
    vstd::arithmetic::power2::lemma_pow2_pos(attempt);
    assert(q == 2 * p);
    let ps = pow2_saturating(attempt);
    let qs = pow2_saturating(attempt + 1);
    assert(ps <= qs);
    vstd::arithmetic::mul::lemma_mul_inequality(ps as int, qs as int, base_ms as int);
    assert(base_ms * ps <= base_ms * qs) by (nonlinear_arith)
        requires
            ps <= qs,
    ;
    if base_ms * p <= u64::MAX {
        if base_ms > 0 {
            assert(p <= base_ms * p) by (nonlinear_arith)
                requires
                    base_ms > 0,
                    p > 0,
            ;
            assert(ps == p);
        } else {
            assert(base_ms * p == 0);
            assert(base_ms * ps == 0);
        }
    }
}

/// A retry delay stops once the retries are spent; otherwise it never
/// exceeds the cap, and it is never shorter than the server's `Retry-After`
/// or the raw back-off, each as far as the cap allows.
pub proof fn law_retry_delay_bounds(
    max_retries: nat,
    attempt: nat,
    raw_ms: nat,
    jitter_ms: nat,
    retry_after_ms: nat,
    max_ms: nat,
)
    ensures
        retry_delay_ms(max_retries, attempt, raw_ms, jitter_ms, retry_after_ms, max_ms) is None
            <==> attempt >= max_retries,
        retry_delay_ms(max_retries, attempt, raw_ms, jitter_ms, retry_after_ms, max_ms) matches Some(ms)
            ==> {
            &&& ms <= max_ms
            &&& (retry_after_ms <= max_ms ==> retry_after_ms <= ms)
            &&& (raw_ms <= max_ms && raw_ms <= u64::MAX ==> raw_ms <= ms)
        },
{
}

proof fn lemma_hex_fixed(n: nat, width: nat)
    ensures
        hex_fixed(n, width).len() == width,
        forall|i: int| 0 <= i < width ==> {
            let c = #[trigger] hex_fixed(n, width)[i];
            ('0' <= c <= '9') || ('a' <= c <= 'f')
        },
    decreases width,
{
    if width > 0 {
        lemma_hex_fixed(n / 16, (width - 1) as nat);
        let d = n % 16;
        assert(hex_fixed(n, width) == hex_fixed(n / 16, (width - 1) as nat).push(crate::text::hex_char(d)));
    }
}

/// A hashed key is the operation, a colon, and exactly sixteen lowercase
/// hexadecimal digits.
pub proof fn law_hashed_key_shape(operation: Seq<char>, data: Seq<u8>)
    ensures
        hashed_key(operation, data).len() == operation.len() + 17,
        hashed_key(operation, data).take(operation.len() as int) == operation,
        hashed_key(operation, data)[operation.len() as int] == ':',
        forall|i: int| operation.len() < i < operation.len() + 17 ==> {
            let c = #[trigger] hashed_key(operation, data)[i];
            ('0' <= c <= '9') || ('a' <= c <= 'f')
        },
{
    let h = hex_fixed(fnv1a(data) as nat, 16);
    lemma_hex_fixed(fnv1a(data) as nat, 16);
    let k = hashed_key(operation, data);
    assert(k.take(operation.len() as int) =~= operation);
    assert forall|i: int| operation.len() < i < operation.len() + 17 implies {
        let c = #[trigger] k[i];
        ('0' <= c <= '9') || ('a' <= c <= 'f')
    } by {
        assert(k[i] == h[i - operation.len() - 1]);
    }
}

} // verus!
