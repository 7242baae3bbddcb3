//! File transfers: what can be done with each, and how they are shown.

use crate::layout::{find_peer, place_of_id};
use crate::text;
use crate::ui::{short_text, short_token, UiFileTransfer, UiPairedPeer};
use vstd::prelude::*;

verus! {

impl UiFileTransfer {
    /// The transfer is in one of two states.
    pub open spec fn in_either(self, a: Seq<char>, b: Seq<char>) -> bool {
        self.state@ == a || self.state@ == b
    }

    pub open spec fn terminal(self) -> bool {
        self.state@ == "completed"@ || self.state@ == "failed"@ || self.state@ == "cancelled"@
    }

    pub open spec fn cancellable(self) -> bool {
        self.direction@ == "outgoing"@ && self.in_either("queued"@, "active"@)
    }

    pub open spec fn retryable(self) -> bool {
        self.direction@ == "outgoing"@ && self.in_either("failed"@, "cancelled"@) && text::trimmed(
            self.source_path@,
        ).len() > 0
    }

    pub open spec fn openable(self) -> bool {
        self.direction@ == "incoming"@ && self.state@ == "completed"@ && text::trimmed(
            self.final_path@,
        ).len() > 0
    }

    /// Nothing more happens with the transfer.
    pub fn is_terminal(&self) -> (r: bool)
        ensures
            r == self.terminal(),
    {
        text::same(self.state.as_str(), "completed") || text::same(self.state.as_str(), "failed")
            || text::same(self.state.as_str(), "cancelled")
    }

    pub fn can_cancel(&self) -> (r: bool)
        ensures
            r == self.cancellable(),
    {
        text::same(self.direction.as_str(), "outgoing") && (text::same(self.state.as_str(), "queued")
            || text::same(self.state.as_str(), "active"))
    }

    pub fn can_retry(&self) -> (r: bool)
        ensures
            r == self.retryable(),
    {
        text::same(self.direction.as_str(), "outgoing") && self.is_terminal() && (text::same(
            self.state.as_str(),
            "failed",
        ) || text::same(self.state.as_str(), "cancelled")) && !text::trim(
            self.source_path.as_str(),
        ).as_str().is_empty()
    }

    pub fn can_open_location(&self) -> (r: bool)
        ensures
            r == self.openable(),
    {
        text::same(self.direction.as_str(), "incoming") && text::same(
            self.state.as_str(),
            "completed",
        ) && !text::trim(self.final_path.as_str()).as_str().is_empty()
    }

    /// The share that is done, as a part of a whole that is not zero: never more
    /// than all of it. A transfer of nothing is done once it is completed.
    pub fn progress_fraction(&self) -> (r: (u64, u64))
        ensures
            r.0 <= r.1,
            r.1 > 0,
            self.total_bytes > 0 ==> {
                &&& r.1 == self.total_bytes
                &&& r.0 == if self.transferred_bytes < self.total_bytes {
                    self.transferred_bytes
                } else {
                    self.total_bytes
                }
            },
            self.total_bytes == 0 ==> r == (if self.state@ == "completed"@ {
                (1u64, 1u64)
            } else {
                (0u64, 1u64)
            }),
    {
        if self.total_bytes == 0 {
            if text::same(self.state.as_str(), "completed") {
                (1, 1)
            } else {
                (0, 1)
            }
        } else if self.transferred_bytes < self.total_bytes {
            (self.transferred_bytes, self.total_bytes)
        } else {
            (self.total_bytes, self.total_bytes)
        }
    }
}

/// How many of `transfers` are in one of two states.
pub open spec fn count_in(transfers: Seq<UiFileTransfer>, a: Seq<char>, b: Seq<char>) -> nat
    decreases transfers.len(),
{
    if transfers.len() == 0 {
        0
    } else {
        count_in(transfers.drop_last(), a, b) + (if transfers.last().in_either(a, b) {
            1nat
        } else {
            0
        })
    }
}

fn count_transfers(transfers: &Vec<UiFileTransfer>, a: &str, b: &str) -> (r: usize)
    ensures
        r == count_in(transfers@, a@, b@),
{
    let mut count: usize = 0;
    let mut i: usize = 0;
    while i < transfers.len()
        invariant
            i <= transfers.len(),
            count <= i,
            count == count_in(transfers@.take(i as int), a@, b@),
        decreases transfers.len() - i,
    {
        assert(transfers@.take(i + 1).drop_last() =~= transfers@.take(i as int));
        if text::same(transfers[i].state.as_str(), a) || text::same(transfers[i].state.as_str(), b) {
            count = count + 1;
        }
        i = i + 1;
    }
    assert(transfers@.take(i as int) =~= transfers@);
    count
}

/// All transfers in a line: what runs, and what failed.
pub open spec fn summary_text(transfers: Seq<UiFileTransfer>) -> Seq<char> {
    let active = count_in(transfers, "active"@, "queued"@);
    let failed = count_in(transfers, "failed"@, "failed"@);
    if failed > 0 {
        text::decimal(active) + " in progress; "@ + text::decimal(failed) + (if failed == 1 {
            " needs"@
        } else {
            " need"@
        }) + " attention"@
    } else if active > 0 {
        text::decimal(active) + " in progress"@
    } else {
        "No transfers in progress"@
    }
}

pub fn transfer_summary(transfers: &Vec<UiFileTransfer>) -> (r: String)
    ensures
        r@ == summary_text(transfers@),
{
    let active = count_transfers(transfers, "active", "queued");
    let failed = count_transfers(transfers, "failed", "failed");
    if failed > 0 {
        let active_text = text::decimal_string(active as u64);
        let failed_text = text::decimal_string(failed as u64);
        text::cat5(
            active_text.as_str(),
            " in progress; ",
            failed_text.as_str(),
            if failed == 1 {
                " needs"
            } else {
                " need"
            },
            " attention",
        )
    } else if active > 0 {
        text::cat2(text::decimal_string(active as u64).as_str(), " in progress")
    } else {
        text::owned("No transfers in progress")
    }
}

/// Whether completed transfers can be cleared away.
pub fn has_completed_transfers(transfers: &Vec<UiFileTransfer>) -> (r: bool)
    ensures
        r == (count_in(transfers@, "completed"@, "completed"@) > 0),
{
    count_transfers(transfers, "completed", "completed") > 0
}

/// The other machine of a transfer: its name where it is paired, else its id in
/// short.
pub open spec fn transfer_peer_name(peer_id: Seq<char>, peers: Seq<UiPairedPeer>) -> Seq<char> {
    match place_of_id(peers, peer_id) {
        Some(at) => peers[at].display_name@,
        None => short_text(peer_id),
    }
}

pub fn peer_transfer_label(peer_id: &str, peers: &Vec<UiPairedPeer>) -> (r: String)
    ensures
        r@ == transfer_peer_name(peer_id@, peers@),
{
    match find_peer(peers, peer_id) {
        Some(at) => peers[at].display_name.clone(),
        None => text::owned(short_token(peer_id)),
    }
}

/// `n / d`, rounded to the nearest whole number; halves go to the even one.
pub open spec fn nearest(n: nat, d: nat) -> nat
    recommends
        d > 0,
{
    let q = n / d;
    let rest = n % d;
    if 2 * rest > d || (2 * rest == d && q % 2 == 1) {
        q + 1
    } else {
        q
    }
}

/// The largest power of two that a double-precision number of the size of `n`
/// steps by.
pub open spec fn double_step(n: nat) -> nat
    decreases n,
{
    if n < 0x20_0000_0000_0000 {
        1
    } else {
        2 * double_step(n / 2)
    }
}

/// `n` as closely as double precision can tell it.
pub open spec fn as_double(n: nat) -> nat {
    nearest(n, double_step(n)) * double_step(n)
}

/// `bytes` in `unit`s, with one digit behind the point.
pub open spec fn in_units(bytes: nat, unit: nat) -> Seq<char> {
    let tenths = nearest(as_double(bytes) * 10, unit);
    text::decimal(tenths / 10) + "."@ + text::decimal(tenths % 10)
}

/// A size in the largest unit of which it holds at least one.
pub open spec fn bytes_text(bytes: nat) -> Seq<char> {
    if bytes >= 0x4000_0000 {
        in_units(bytes, 0x4000_0000) + " GB"@
    } else if bytes >= 0x10_0000 {
        in_units(bytes, 0x10_0000) + " MB"@
    } else if bytes >= 0x400 {
        in_units(bytes, 0x400) + " KB"@
    } else {
        text::decimal(bytes) + " B"@
    }
}

fn round_nearest(n: u128, d: u128) -> (r: u128)
    requires
        0 < d <= 0x4000_0000,
        n < 0x1_0000_0000_0000_0000_0000_0000,
    ensures
        r == nearest(n as nat, d as nat),
        r <= n + 1,
{
    let q: u128 = n / d;
    let rest: u128 = n % d;
    proof {
        assert(q <= n) by (nonlinear_arith)
            requires
                q == n / d,
                d > 0,
        ;
    }
    if 2 * rest > d || (2 * rest == d && q % 2 == 1) {
        q + 1
    } else {
        q
    }
}

proof fn lemma_double_step_bound(n: nat, k: nat)
    requires
        n < 0x20_0000_0000_0000 * vstd::arithmetic::power2::pow2(k),
    ensures
        1 <= double_step(n) <= vstd::arithmetic::power2::pow2(k),
    decreases k,
{
    vstd::arithmetic::power2::lemma_pow2_pos(k);
    if n >= 0x20_0000_0000_0000 {
        if k == 0 {
            vstd::arithmetic::power2::lemma2_to64();
        } else {
            vstd::arithmetic::power2::lemma_pow2_unfold(k);
            lemma_double_step_bound(n / 2, (k - 1) as nat);
        }
    }
}

fn step_of_double(n: u64) -> (r: u64)
    ensures
        r == double_step(n as nat),
        1 <= r <= 2048,
    decreases n,
{
    proof {
        vstd::arithmetic::power2::lemma2_to64();
        lemma_double_step_bound(n as nat, 11);
    }
    if n < 0x20_0000_0000_0000 {
        1
    } else {
        let half = step_of_double(n / 2);
        2 * half
    }
}

fn push_units(out: &mut String, bytes: u64, unit: u64)
    requires
        1024 <= unit <= 0x4000_0000,
    ensures
        final(out)@ == old(out)@ + in_units(bytes as nat, unit as nat),
{
    let ghost before = out@;
    let step = step_of_double(bytes);
    let steps = round_nearest(bytes as u128, step as u128);
    proof {
        assert(steps * step <= 0x1_0000_0000_0000_0000 * 2048) by (nonlinear_arith)
            requires
                steps <= bytes + 1,
                bytes <= 0xffff_ffff_ffff_ffff,
                1 <= step <= 2048,
        ;
    }
    let value: u128 = steps * (step as u128);
    let tenths = round_nearest(value * 10, unit as u128);
    assert(tenths == nearest(as_double(bytes as nat) * 10, unit as nat));
    proof {
        lemma_tenths_bound(bytes as nat, step as nat, unit as nat);
    }
    text::push_decimal(out, (tenths / 10) as u64);
    out.append(".");
    text::push_decimal(out, (tenths % 10) as u64);
    assert(out@ =~= before + in_units(bytes as nat, unit as nat));
}

proof fn lemma_tenths_bound(bytes: nat, step: nat, unit: nat)
    requires
        bytes <= 0xffff_ffff_ffff_ffff,
        step == double_step(bytes),
        1 <= step <= 2048,
        unit >= 1024,
    ensures
        nearest(as_double(bytes) * 10, unit) / 10 <= 0xffff_ffff_ffff_ffff,
{
    let q = bytes / step;
    assert(nearest(bytes, step) <= q + 1);
    assert(q * step <= bytes) by (nonlinear_arith)
        requires
            q == bytes / step,
            step >= 1,
    ;
    assert(as_double(bytes) <= bytes + 2048) by (nonlinear_arith)
        requires
            as_double(bytes) == nearest(bytes, step) * step,
            nearest(bytes, step) <= q + 1,
            q * step <= bytes,
            1 <= step <= 2048,
    ;
    let v = as_double(bytes) * 10;
    assert(v / unit <= v / 1024) by (nonlinear_arith)
        requires
            unit >= 1024,
            v >= 0,
    ;
}

/// A size in words.
pub fn format_bytes(bytes: u64) -> (r: String)
    ensures
        r@ == bytes_text(bytes as nat),
{
    let mut out = String::new();
    if bytes >= 0x4000_0000 {
        push_units(&mut out, bytes, 0x4000_0000);
        out.append(" GB");
        assert(out@ =~= in_units(bytes as nat, 0x4000_0000) + " GB"@);
    } else if bytes >= 0x10_0000 {
        push_units(&mut out, bytes, 0x10_0000);
        out.append(" MB");
        assert(out@ =~= in_units(bytes as nat, 0x10_0000) + " MB"@);
    } else if bytes >= 0x400 {
        push_units(&mut out, bytes, 0x400);
        out.append(" KB");
        assert(out@ =~= in_units(bytes as nat, 0x400) + " KB"@);
    } else {
        text::push_decimal(&mut out, bytes);
        out.append(" B");
        assert(out@ =~= text::decimal(bytes as nat) + " B"@);
    }
    out
}

/// How far a transfer is, in words; it is never further than its end.
pub open spec fn progress_text(transferred: u64, total: u64) -> Seq<char> {
    if total == 0 {
        "0 B"@
    } else {
        bytes_text(
            if transferred < total {
                transferred as nat
            } else {
                total as nat
            },
        ) + " / "@ + bytes_text(total as nat)
    }
}

pub fn format_transfer_progress(transfer: &UiFileTransfer) -> (r: String)
    ensures
        r@ == progress_text(transfer.transferred_bytes, transfer.total_bytes),
{
    if transfer.total_bytes == 0 {
        return text::owned("0 B");
    }
    let done = if transfer.transferred_bytes < transfer.total_bytes {
        transfer.transferred_bytes
    } else {
        transfer.total_bytes
    };
    let done_text = format_bytes(done);
    let total_text = format_bytes(transfer.total_bytes);
    text::cat3(done_text.as_str(), " / ", total_text.as_str())
}

/// Why a transfer failed, in words; nothing where no reason is told.
pub fn failure_reason_label(reason: &str) -> (r: String)
    ensures
        r@ == (if text::trimmed(reason@).len() == 0 {
            Seq::<char>::empty()
        } else {
            text::replaced(reason@, '_', ' ')
        }),
{
    if text::trim(reason).as_str().is_empty() {
        String::new()
    } else {
        text::replace_char(reason, '_', ' ')
    }
}

/// What a transfer is called.
pub fn transfer_file_label(transfer: &UiFileTransfer) -> (r: &str)
    ensures
        r@ == (if text::trimmed(transfer.file_name@).len() == 0 {
            "(unnamed)"@
        } else {
            transfer.file_name@
        }),
{
    if text::trim(transfer.file_name.as_str()).as_str().is_empty() {
        "(unnamed)"
    } else {
        transfer.file_name.as_str()
    }
}

pub open spec fn queued_text(total: nat) -> Seq<char> {
    "Queued "@ + text::decimal(total) + " file"@ + (if total == 1 {
        ""@
    } else {
        "s"@
    }) + " for transfer"@
}

/// The report after files were handed over.
pub fn queued_files_message(total: usize) -> (r: String)
    ensures
        r@ == queued_text(total as nat),
{
    let count = text::decimal_string(total as u64);
    text::cat5(
        "Queued ",
        count.as_str(),
        " file",
        if total == 1 {
            ""
        } else {
            "s"
        },
        " for transfer",
    )
}

/// A transfer can be cancelled only before its end and retried only after it,
/// and what can be opened can be neither.
pub proof fn law_transfer_actions_exclude_each_other(transfer: UiFileTransfer)
    ensures
        transfer.retryable() ==> transfer.terminal() && !transfer.cancellable(),
        transfer.cancellable() ==> !transfer.terminal(),
        transfer.openable() ==> transfer.terminal() && !transfer.cancellable()
            && !transfer.retryable(),
{
    reveal_strlit("outgoing");
    reveal_strlit("incoming");
    reveal_strlit("queued");
    reveal_strlit("active");
    reveal_strlit("completed");
    reveal_strlit("failed");
    reveal_strlit("cancelled");
    assert("outgoing"@[0] != "incoming"@[0]);
    assert("queued"@[0] != "completed"@[0] && "queued"@[0] != "failed"@[0] && "queued"@[0]
        != "cancelled"@[0]);
    assert("active"@[0] != "completed"@[0] && "active"@[0] != "failed"@[0] && "active"@[0]
        != "cancelled"@[0]);
}

/// A transfer can be cancelled exactly where it goes out and is queued or running,
/// retried exactly where it went out, failed or was cancelled and its source is known,
/// and its file shown exactly where it came in whole and its place is known.
pub proof fn law_transfer_actions(transfer: UiFileTransfer)
    ensures
        transfer.cancellable() <==> transfer.direction@ == "outgoing"@ && (transfer.state@
            == "queued"@ || transfer.state@ == "active"@),
        transfer.retryable() <==> transfer.direction@ == "outgoing"@ && (transfer.state@
            == "failed"@ || transfer.state@ == "cancelled"@) && text::trimmed(
            transfer.source_path@,
        ).len() > 0,
        transfer.openable() <==> transfer.direction@ == "incoming"@ && transfer.state@
            == "completed"@ && text::trimmed(transfer.final_path@).len() > 0,
        transfer.terminal() <==> transfer.state@ == "completed"@ || transfer.state@ == "failed"@
            || transfer.state@ == "cancelled"@,
{
}

/// Transfers are counted one by one, in whatever lists they come.
pub proof fn law_transfers_add_up(
    one: Seq<UiFileTransfer>,
    other: Seq<UiFileTransfer>,
    single: UiFileTransfer,
    a: Seq<char>,
    b: Seq<char>,
)
    ensures
        count_in(one + other, a, b) == count_in(one, a, b) + count_in(other, a, b),
        count_in(Seq::empty(), a, b) == 0,
        count_in(seq![single], a, b) == (if single.state@ == a || single.state@ == b {
            1nat
        } else {
            0nat
        }),
    decreases other.len(),
{
    reveal_with_fuel(count_in, 2);
    assert(seq![single].drop_last() =~= Seq::empty());
    if other.len() == 0 {
        assert(one + other =~= one);
    } else {
        law_transfers_add_up(one, other.drop_last(), single, a, b);
        assert((one + other).drop_last() =~= one + other.drop_last());
    }
}

/// The line on all transfers tells how many are queued or running and how many failed;
/// nothing of either is said in words of its own.
pub proof fn law_summary_counts_what_runs_and_what_failed(transfers: Seq<UiFileTransfer>)
    ensures
        ({
            let running = text::decimal(count_in(transfers, "queued"@, "active"@));
            let failed = count_in(transfers, "failed"@, "failed"@);
            let line = summary_text(transfers);
            &&& failed == 0 && count_in(transfers, "queued"@, "active"@) == 0 ==> line
                == "No transfers in progress"@
            &&& failed == 0 && count_in(transfers, "queued"@, "active"@) > 0 ==> line == running
                + " in progress"@
            &&& failed == 1 ==> line == running + " in progress; "@ + text::decimal(1) + " needs"@
                + " attention"@
            &&& failed > 1 ==> line == running + " in progress; "@ + text::decimal(failed)
                + " need"@ + " attention"@
        }),
{
    lemma_count_either_way(transfers, "queued"@, "active"@);
}

proof fn lemma_count_either_way(transfers: Seq<UiFileTransfer>, a: Seq<char>, b: Seq<char>)
    ensures
        count_in(transfers, a, b) == count_in(transfers, b, a),
    decreases transfers.len(),
{
    if transfers.len() > 0 {
        lemma_count_either_way(transfers.drop_last(), a, b);
    }
}

/// Rounding is off by half a step at most, and goes to the even number in between.
pub proof fn law_rounding_is_to_the_nearest(n: nat, d: nat)
    requires
        d > 0,
    ensures
        2 * (nearest(n, d) * d - n) <= d,
        2 * (n - nearest(n, d) * d) <= d,
        2 * (nearest(n, d) * d - n) == d || 2 * (n - nearest(n, d) * d) == d ==> nearest(n, d) % 2
            == 0,
        n % d == 0 ==> nearest(n, d) * d == n,
{
    let q = n / d;
    let rest = n % d;
    assert(n == q * d + rest && 0 <= rest < d) by (nonlinear_arith)
        requires
            d > 0,
            q == n / d,
            rest == n % d,
    ;
    assert((q + 1) * d == q * d + d) by (nonlinear_arith);
}

/// Sizes below a kibibyte are told in bytes; larger ones in the largest unit of which
/// they hold one, to a tenth; a size that double precision holds is not distorted.
pub proof fn law_sizes_are_told_in_their_unit(bytes: nat)
    ensures
        bytes < 1024 ==> bytes_text(bytes) == text::decimal(bytes) + " B"@,
        1024 <= bytes < 1048576 ==> bytes_text(bytes) == in_units(bytes, 1024) + " KB"@,
        1048576 <= bytes < 1073741824 ==> bytes_text(bytes) == in_units(bytes, 1048576) + " MB"@,
        1073741824 <= bytes ==> bytes_text(bytes) == in_units(bytes, 1073741824) + " GB"@,
        bytes < 0x20_0000_0000_0000 ==> as_double(bytes) == bytes,
        forall|unit: nat|
            #![trigger in_units(bytes, unit)]
            bytes < 0x20_0000_0000_0000 && unit > 0 ==> in_units(bytes, unit) == text::decimal(
                nearest(bytes * 10, unit) / 10,
            ) + "."@ + text::decimal(nearest(bytes * 10, unit) % 10),
{
    if bytes < 0x20_0000_0000_0000 {
        assert(double_step(bytes) == 1);
        assert(nearest(bytes, 1) == bytes);
        assert(as_double(bytes) == bytes);
    }
}

/// How far a transfer is: what was transferred of the total, never more than it.
pub proof fn law_progress_never_passes_the_total(transferred: u64, total: u64)
    ensures
        total == 0 ==> progress_text(transferred, total) == "0 B"@,
        0 < total <= transferred ==> progress_text(transferred, total) == bytes_text(total as nat)
            + " / "@ + bytes_text(total as nat),
        transferred < total ==> progress_text(transferred, total) == bytes_text(transferred as nat)
            + " / "@ + bytes_text(total as nat),
{
}

/// One file is told of in the singular, any other number in the plural.
pub proof fn law_queued_files_are_counted(total: nat)
    ensures
        total == 1 ==> queued_text(total) == "Queued "@ + text::decimal(1) + " file"@ + ""@
            + " for transfer"@,
        total != 1 ==> queued_text(total) == "Queued "@ + text::decimal(total) + " file"@ + "s"@
            + " for transfer"@,
{
}

/// A transfer names its machine, a machine that is not paired by its id in short.
pub proof fn law_transfers_name_their_machine(id: Seq<char>, peers: Seq<UiPairedPeer>, at: int)
    ensures
        0 <= at < peers.len() && peers[at].peer_id@ == id && (forall|j: int|
            0 <= j < at ==> (#[trigger] peers[j]).peer_id@ != id) ==> transfer_peer_name(id, peers)
            == peers[at].display_name@,
        (forall|j: int| 0 <= j < peers.len() ==> (#[trigger] peers[j]).peer_id@ != id)
            ==> transfer_peer_name(id, peers) == short_text(id),
{
    crate::layout_laws::lemma_place_of_id(peers, id);
    if 0 <= at < peers.len() && peers[at].peer_id@ == id && (forall|j: int|
        0 <= j < at ==> (#[trigger] peers[j]).peer_id@ != id) {
        let found = place_of_id(peers, id)->0;
        if found < at {
            assert(peers[found].peer_id@ != id);
        } else if at < found {
            assert(peers[at].peer_id@ != id);
        }
    }
}

/// A double-precision number steps by one up to 53 bits, and by so much above that its
/// size counts from 52 to 53 bits of steps.
pub proof fn law_double_steps(n: nat)
    ensures
        n < 0x20_0000_0000_0000 ==> double_step(n) == 1,
        n >= 0x20_0000_0000_0000 ==> double_step(n) * 0x10_0000_0000_0000 <= n < double_step(n)
            * 0x20_0000_0000_0000,
    decreases n,
{
    if n >= 0x20_0000_0000_0000 {
        law_double_steps(n / 2);
    }
}

} // verus!
