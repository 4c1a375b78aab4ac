//! The io_uring page: the ring configuration and its defaults, and the
//! health summary of the file I/O backend.

use vstd::prelude::*;
use crate::numbers::{decimal_digits, push_decimal};
use vstd::arithmetic::power2::{
    is_pow2_equiv, is_pow2_exists, lemma2_to64, lemma_pow2, lemma_pow2_strictly_increases, pow2,
};
use crate::text::{join2, join3, owned, same_text};

verus! {

/// The io_uring settings the page edits.
#[derive(Clone, Copy, Debug, PartialEq, Eq, Structural)]
pub struct IoUringConfig {
    pub ring_size: u32,
    pub cq_size: u32,
    pub buffer_size: usize,
    pub buffer_pool_size: usize,
    pub clamp: bool,
    pub sqpoll: bool,
    pub sqpoll_idle_ms: u32,
    pub sqpoll_cpu: i32,
    pub iopoll: bool,
    pub single_issuer: bool,
    pub coop_taskrun: bool,
    pub defer_taskrun: bool,
    pub submit_all: bool,
    pub taskrun_flag: bool,
    pub r_disabled: bool,
    pub attach_wq_fd: i32,
    pub dontfork: bool,
}

/// The values the Reset button restores: a 256-entry ring, a completion
/// queue sized by the kernel, 64 KiB buffers in a pool of 64, polling off
/// (idle 1000 ms, no CPU pinned), a single issuer, and no shared work queue.
pub open spec fn default_config() -> IoUringConfig {
    IoUringConfig {
        ring_size: 256,
        cq_size: 0,
        buffer_size: 65536,
        buffer_pool_size: 64,
        clamp: false,
        sqpoll: false,
        sqpoll_idle_ms: 1000,
        sqpoll_cpu: -1i32,
        iopoll: false,
        single_issuer: true,
        coop_taskrun: false,
        defer_taskrun: false,
        submit_all: false,
        taskrun_flag: false,
        r_disabled: false,
        attach_wq_fd: -1i32,
        dontfork: false,
    }
}

impl IoUringConfig {
    /// The default settings.
    pub fn defaults() -> (c: IoUringConfig)
        ensures
            c == default_config(),
    {
        IoUringConfig {
            ring_size: 256,
            cq_size: 0,
            buffer_size: 65536,
            buffer_pool_size: 64,
            clamp: false,
            sqpoll: false,
            sqpoll_idle_ms: 1000,
            sqpoll_cpu: -1,
            iopoll: false,
            single_issuer: true,
            coop_taskrun: false,
            defer_taskrun: false,
            submit_all: false,
            taskrun_flag: false,
            r_disabled: false,
            attach_wq_fd: -1,
            dontfork: false,
        }
    }
}

/// `n` is a power of two.
pub open spec fn is_power_of_two(n: nat) -> bool
    decreases n,
{
    if n == 1 {
        true
    } else if n == 0 || n % 2 == 1 {
        false
    } else {
        is_power_of_two(n / 2)
    }
}

/// The queue sizes the help text allows: a ring of 1 to 32768 entries that
/// is a power of two, and a completion queue that is either 0 (sized
/// automatically) or larger than the ring.
pub open spec fn queue_sizes_valid(ring_size: u32, cq_size: u32) -> bool {
    &&& 1 <= ring_size <= 32768
    &&& is_power_of_two(ring_size as nat)
    &&& (cq_size == 0 || cq_size > ring_size)
}

/// The default queue sizes are allowed ones.
pub proof fn law_defaults_are_valid()
    ensures
        queue_sizes_valid(default_config().ring_size, default_config().cq_size),
{
    reveal_with_fuel(is_power_of_two, 10);
}

/// The recursive power-of-two test agrees with vstd's.
proof fn lemma_power_of_two_is_pow2(n: nat)
    ensures
        is_power_of_two(n) == vstd::arithmetic::power2::is_pow2(n as int),
    decreases n,
{
    reveal(vstd::arithmetic::power2::is_pow2);
    if n > 1 && n % 2 == 0 {
        lemma_power_of_two_is_pow2(n / 2);
    }
}

/// The queue sizes allowed are exactly these: a ring of `2^k` entries for
/// some `k` from 0 to 15 (1 to 32768), and a completion queue of 0 or of
/// more entries than the ring.
pub proof fn law_queue_sizes(ring_size: u32, cq_size: u32)
    ensures
        queue_sizes_valid(ring_size, cq_size) <==> (
            (exists|k: nat| k <= 15 && pow2(k) == ring_size)
            && (cq_size == 0 || cq_size > ring_size)),
{
    lemma2_to64();
    lemma_power_of_two_is_pow2(ring_size as nat);
    is_pow2_equiv(ring_size as int);
    if queue_sizes_valid(ring_size, cq_size) {
        let i = choose|i: nat| vstd::arithmetic::power::pow(2, i) == ring_size as int;
        lemma_pow2(i);
        if i > 15 {
            lemma_pow2_strictly_increases(15, i);
        }
        assert(i <= 15 && pow2(i) == ring_size);
    }
    if exists|k: nat| k <= 15 && pow2(k) == ring_size {
        let k = choose|k: nat| k <= 15 && pow2(k) == ring_size;
        lemma_pow2(k);
        assert(is_pow2_exists(ring_size as int));
        if k < 15 {
            lemma_pow2_strictly_increases(k, 15);
        }
        if k > 0 {
            lemma_pow2_strictly_increases(0, k);
        }
    }
}

/// Whether `n` is a power of two.
pub fn power_of_two(n: u32) -> (r: bool)
    ensures
        r == is_power_of_two(n as nat),
{
    let mut m = n;
    while m > 1 && m % 2 == 0
        invariant
            is_power_of_two(n as nat) == is_power_of_two(m as nat),
        decreases m,
    {
        m = m / 2;
    }
    m == 1
}

/// Whether the queue sizes of `c` are ones the help text allows.
pub fn queue_sizes_ok(c: &IoUringConfig) -> (r: bool)
    ensures
        r == queue_sizes_valid(c.ring_size, c.cq_size),
{
    1 <= c.ring_size && c.ring_size <= 32768 && power_of_two(c.ring_size)
        && (c.cq_size == 0 || c.cq_size > c.ring_size)
}

/// The message after Reset.
pub fn reset_message() -> (r: String)
    ensures
        r@ == "Reset to defaults (not saved yet)"@,
{
    owned("Reset to defaults (not saved yet)")
}

/// The health of the file I/O backend: unknown until the statistics load,
/// unhealthy once any I/O error was recorded, healthy on io_uring, and
/// degraded on the fallback backend.
pub open spec fn health_text(stats_loaded: bool, total_errors: u64, backend: Seq<char>) -> Seq<char> {
    if !stats_loaded {
        "Unknown"@
    } else if total_errors > 0 {
        "Unhealthy"@
    } else if backend == "io_uring"@ {
        "Healthy"@
    } else {
        "Degraded"@
    }
}

/// Unloaded statistics say nothing; a single recorded error makes the
/// backend unhealthy whatever it is; without errors only io_uring is
/// healthy, and any other backend is degraded.
pub proof fn law_health(stats_loaded: bool, total_errors: u64, backend: Seq<char>)
    ensures
        !stats_loaded ==> health_text(stats_loaded, total_errors, backend) == "Unknown"@,
        stats_loaded && total_errors > 0 ==> health_text(stats_loaded, total_errors, backend) == "Unhealthy"@,
        stats_loaded && total_errors == 0 ==> (health_text(stats_loaded, total_errors, backend) == "Healthy"@
            <==> backend == "io_uring"@),
        stats_loaded && total_errors == 0 && backend != "io_uring"@
            ==> health_text(stats_loaded, total_errors, backend) == "Degraded"@,
{
    reveal_strlit("Healthy");
    reveal_strlit("Degraded");
    assert("Healthy"@ != "Degraded"@) by {
        assert("Healthy"@.len() != "Degraded"@.len());
    }
}

/// The health of the file I/O backend.
pub fn health_status(stats_loaded: bool, total_errors: u64, backend: &str) -> (r: &'static str)
    ensures
        r@ == health_text(stats_loaded, total_errors, backend@),
{
    if !stats_loaded {
        "Unknown"
    } else if total_errors > 0 {
        "Unhealthy"
    } else if same_text(backend, "io_uring") {
        "Healthy"
    } else {
        "Degraded"
    }
}

/// The unit a byte count is shown in.
#[derive(Clone, Copy, Debug, PartialEq, Eq, Structural)]
pub enum ByteScale {
    Gigabytes,
    Megabytes,
    Kilobytes,
    Bytes,
}

/// The largest binary unit that the count reaches (GB, MB, KB), or plain bytes.
pub open spec fn scale_of(bytes: u64) -> ByteScale {
    if bytes >= 1024 * 1024 * 1024 {
        ByteScale::Gigabytes
    } else if bytes >= 1024 * 1024 {
        ByteScale::Megabytes
    } else if bytes >= 1024 {
        ByteScale::Kilobytes
    } else {
        ByteScale::Bytes
    }
}

/// The number of bytes one of the unit stands for.
pub open spec fn scale_bytes(s: ByteScale) -> nat {
    match s {
        ByteScale::Gigabytes => 1073741824,
        ByteScale::Megabytes => 1048576,
        ByteScale::Kilobytes => 1024,
        ByteScale::Bytes => 1,
    }
}

/// The unit chosen is the largest of B, KB (1024), MB (1024 squared) and
/// GB (1024 cubed) that the count reaches: the count is at least one of it,
/// and below one of the next larger unit.
pub proof fn law_byte_scale(bytes: u64)
    ensures
        bytes == 0 || scale_bytes(scale_of(bytes)) <= bytes,
        scale_of(bytes) != ByteScale::Gigabytes ==> bytes < scale_bytes(scale_of(bytes)) * 1024,
{
}

/// The unit a byte count is shown in.
pub fn byte_scale(bytes: u64) -> (s: ByteScale)
    ensures
        s == scale_of(bytes),
{
    if bytes >= 1024 * 1024 * 1024 {
        ByteScale::Gigabytes
    } else if bytes >= 1024 * 1024 {
        ByteScale::Megabytes
    } else if bytes >= 1024 {
        ByteScale::Kilobytes
    } else {
        ByteScale::Bytes
    }
}

/// The number of bytes that one of the unit stands for.
pub fn scale_divisor(s: ByteScale) -> (d: u64)
    ensures
        d == match s {
            ByteScale::Gigabytes => 1024 * 1024 * 1024,
            ByteScale::Megabytes => 1024 * 1024,
            ByteScale::Kilobytes => 1024,
            ByteScale::Bytes => 1,
        },
        d == scale_bytes(s),
{
    match s {
        ByteScale::Gigabytes => 1024 * 1024 * 1024,
        ByteScale::Megabytes => 1024 * 1024,
        ByteScale::Kilobytes => 1024,
        ByteScale::Bytes => 1,
    }
}

/// The unit's suffix.
pub fn scale_suffix(s: ByteScale) -> (r: &'static str)
    ensures
        r@ == match s {
            ByteScale::Gigabytes => "GB"@,
            ByteScale::Megabytes => "MB"@,
            ByteScale::Kilobytes => "KB"@,
            ByteScale::Bytes => "B"@,
        },
{
    match s {
        ByteScale::Gigabytes => "GB",
        ByteScale::Megabytes => "MB",
        ByteScale::Kilobytes => "KB",
        ByteScale::Bytes => "B",
    }
}

/// A count below one kibibyte, written exactly: the number and `B`.
pub fn small_bytes_text(bytes: u64) -> (r: String)
    requires
        bytes < 1024,
    ensures
        r@ == decimal_digits(bytes as nat) + " B"@,
{
    let mut r = String::new();
    push_decimal(&mut r, bytes);
    crate::text::push_all(&mut r, " B");
    assert(Seq::<char>::empty() + decimal_digits(bytes as nat) =~= decimal_digits(bytes as nat));
    r
}

/// The detail line of the health card: the backend and the bytes read, or
/// a note that the statistics could not be loaded.
pub fn health_detail(stats_loaded: bool, backend: &str, bytes_read_text: &str) -> (r: String)
    ensures
        r@ == if stats_loaded { backend@ + " | "@ + bytes_read_text@ } else { "API unreachable"@ },
{
    if !stats_loaded {
        owned("API unreachable")
    } else {
        join3(backend, " | ", bytes_read_text)
    }
}

/// The error shown when the configuration cannot be loaded.
pub fn load_error_message(e: &str) -> (r: String)
    ensures
        r@ == "Failed to load io_uring config: "@ + e@,
{
    join2("Failed to load io_uring config: ", e)
}

/// What the page shows after a save: a status on success, the error otherwise.
pub fn after_save(result: &Result<(), String>) -> (r: (Option<String>, Option<String>))
    ensures
        match result {
            Ok(_) => r.1 is None && (r.0 matches Some(m) && m@ == "Saved! Restart required."@),
            Err(e) => r.0 is None && (r.1 matches Some(m) && m@ == e@),
        },
{
    match result {
        Ok(_) => (Some(owned("Saved! Restart required.")), None),
        Err(e) => (None, Some(e.clone())),
    }
}

} // verus!
