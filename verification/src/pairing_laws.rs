//! What holds of addresses, of what failures of a pairing are read for, and of the
//! pairing dialog.

use crate::actions::DashboardCommand;
use crate::dashboard::DashboardModel;
use crate::pairing::{
    advice_for, advice_text, connectable, endpoint_host, failure_attempts, failure_port,
    listed_before, manual_port_valid, named_port, only_selected, retry_may_help, same_flow, selects, GuidedPairingFlow,
    GuidedPairingResult, PairingAdvice, PairingChallengeState, DEFAULT_PAIRING_PORT,
};
use crate::session::{
    alias_text, text_of, PairingDialog, PairingMsg, PairingSession, RoleReversalOffer,
};
use crate::text;
use crate::text_laws;
use crate::ui::{short_text, timestamp_text, UiDiscoveredPeer, UiPairedPeer};
use vstd::prelude::*;

verus! {

proof fn lemma_last_colon(host: Seq<char>, n: nat)
    ensures
        text::last_char_at(host + seq![':'] + text::decimal(n), ':') == Some(host.len() as int),
        (host + seq![':'] + text::decimal(n)).skip(host.len() as int + 1) == text::decimal(n),
        (host + seq![':'] + text::decimal(n)).take(host.len() as int) == host,
{
    let d = text::decimal(n);
    let s = host + seq![':'] + d;
    text_laws::law_written_numbers_are_digits(n, Seq::empty());
    text_laws::law_places_of_a_character(s, ':');
    assert(s[host.len() as int] == ':');
    assert(s.contains(':'));
    let at = text::last_char_at(s, ':')->0;
    if at > host.len() {
        assert(s[at] == d[at - host.len() - 1]);
        assert(text::is_digit(d[at - host.len() - 1]));
    }
    assert(s.skip(host.len() as int + 1) =~= d);
    assert(s.take(host.len() as int) =~= host);
}

/// An endpoint is a host, a colon and a port from 1 to 65535.
pub proof fn law_endpoint_is_host_and_port(host: Seq<char>, port: nat)
    ensures
        ({
            let endpoint = host + seq![':'] + text::decimal(port);
            &&& endpoint_host(endpoint) == (if host.len() > 0 && 1 <= port <= 65535 {
                Some(host)
            } else {
                None
            })
            &&& named_port(endpoint) == (if 1 <= port <= 65535 {
                Some(port)
            } else {
                None
            })
        }),
        !host.contains(':') ==> endpoint_host(host) is None && named_port(host) is None,
        DEFAULT_PAIRING_PORT == 15200,
{
    lemma_last_colon(host, port);
    text_laws::law_numbers_are_read_as_written(port, 0, 65535);
    text_laws::law_places_of_a_character(host, ':');
}

/// A port can be entered with white space around it.
pub proof fn law_port_entry(a: Seq<char>, port: nat, b: Seq<char>)
    requires
        forall|i: int| 0 <= i < a.len() ==> text::is_white(#[trigger] a[i]),
        forall|i: int| 0 <= i < b.len() ==> text::is_white(#[trigger] b[i]),
    ensures
        manual_port_valid(a + text::decimal(port) + b) <==> 1 <= port <= 65535,
{
    let d = text::decimal(port);
    text_laws::law_written_numbers_are_digits(port, Seq::empty());
    assert(text::is_digit(d[0]) && text::is_digit(d[d.len() - 1]));
    text_laws::law_trimming_leaves_the_middle(a, d, b);
    text_laws::law_numbers_are_read_as_written(port, 0, 65535);
}

/// A selector means the machines whose id or name begins with it, case and white
/// space around it aside.
pub proof fn law_selectors_go_by_the_beginning(peer: UiDiscoveredPeer, selector: Seq<char>)
    ensures
        ({
            let wanted = text::trimmed(selector);
            let id = peer.machine_id@;
            let name = peer.display_name@;
            let n = wanted.len() as int;
            selects(peer, selector) <==> ({
                ||| n <= id.len() && text::lowered(id.take(n)) == text::lowered(wanted)
                ||| n <= name.len() && text::lowered(name.take(n)) == text::lowered(wanted)
            })
        }),
{
    let n = text::trimmed(selector).len() as int;
    let id = peer.machine_id@;
    let name = peer.display_name@;
    if n <= id.len() {
        assert(text::lowered(id).subrange(0, n) =~= text::lowered(id.take(n)));
    }
    if n <= name.len() {
        assert(text::lowered(name).subrange(0, n) =~= text::lowered(name.take(n)));
    }
}

/// A machine can be connected to unless it is this one or is paired, case aside.
pub proof fn law_paired_machines_are_not_connectable(
    peer: UiDiscoveredPeer,
    local: Seq<char>,
    paired: Seq<UiPairedPeer>,
    j: int,
)
    requires
        0 <= j < paired.len(),
    ensures
        text::lowered(local) == text::lowered(peer.machine_id@) ==> !connectable(
            peer,
            local,
            paired,
        ),
        text::lowered(paired[j].peer_id@) == text::lowered(peer.machine_id@) ==> !connectable(
            peer,
            local,
            paired,
        ),
        connectable(peer, local, Seq::empty()) <==> text::lowered(local) != text::lowered(
            peer.machine_id@,
        ),
        connectable(peer, local, paired) <==> connectable(peer, local, paired.remove(j))
            && text::lowered(paired[j].peer_id@) != text::lowered(peer.machine_id@),
{
    let fewer = paired.remove(j);
    if connectable(peer, local, fewer) && text::lowered(paired[j].peer_id@) != text::lowered(
        peer.machine_id@,
    ) {
        assert forall|k: int| 0 <= k < paired.len() implies text::lowered(
            (#[trigger] paired[k]).peer_id@,
        ) != text::lowered(peer.machine_id@) by {
            if k < j {
                assert(fewer[k] == paired[k]);
            } else if k > j {
                assert(fewer[k - 1] == paired[k]);
            }
        }
    }
    if connectable(peer, local, paired) {
        assert forall|k: int| 0 <= k < fewer.len() implies text::lowered(
            (#[trigger] fewer[k]).peer_id@,
        ) != text::lowered(peer.machine_id@) by {
            if k < j {
                assert(fewer[k] == paired[k]);
            } else {
                assert(fewer[k] == paired[k + 1]);
            }
        }
    }
}

/// Machines are listed by name, case aside; those of one name by id.
pub proof fn law_machines_are_listed_by_name(a: UiDiscoveredPeer, b: UiDiscoveredPeer)
    ensures
        ({
            let x = text::lowered(a.display_name@);
            let y = text::lowered(b.display_name@);
            &&& listed_before(a, a)
            &&& listed_before(a, b) || listed_before(b, a)
            &&& listed_before(a, b) && listed_before(b, a) ==> x == y && a.machine_id@
                == b.machine_id@
            &&& x != y && text::text_le(x, y) ==> listed_before(a, b)
            &&& x == y && text::text_le(a.machine_id@, b.machine_id@) ==> listed_before(a, b)
        }),
{
    text::lemma_text_le_total(a.machine_id@, b.machine_id@);
    text::lemma_text_le_total(a.machine_id@, a.machine_id@);
    text::lemma_text_le_total(
        text::lowered(a.display_name@),
        text::lowered(b.display_name@),
    );
}

/// A failure tells how many attempts are left behind `attempts_remaining=`.
pub proof fn law_failure_tells_attempts(a: Seq<char>, n: nat, rest: Seq<char>)
    requires
        rest.len() > 0 ==> !text::is_digit(rest[0]),
        forall|j: int|
            0 <= j < a.len() ==> !#[trigger] text::occurs_at(
                a + "attempts_remaining="@ + (text::decimal(n) + rest),
                "attempts_remaining="@,
                j,
            ),
    ensures
        failure_attempts(a + "attempts_remaining="@ + (text::decimal(n) + rest)) == (if n <= 255 {
            Some(n)
        } else {
            None
        }),
        !text::occurs(a, "attempts_remaining="@) ==> failure_attempts(a) is None,
{
    let key = "attempts_remaining="@;
    text_laws::law_rest_after_the_first(a, key, text::decimal(n) + rest);
    text_laws::law_written_numbers_are_digits(n, rest);
    text_laws::law_numbers_are_read_as_written(n, 0, 255);
}

/// A failure names the port of the other machine in the endpoint that follows
/// `nearby pairing endpoint `.
pub proof fn law_failure_names_the_port(
    a: Seq<char>,
    host: Seq<char>,
    port: nat,
    rest: Seq<char>,
)
    requires
        forall|i: int| 0 <= i < host.len() ==> !text::is_white(#[trigger] host[i]),
        rest.len() > 0 ==> text::is_white(rest[0]),
        1 <= port <= 65535,
        forall|j: int|
            0 <= j < a.len() ==> !#[trigger] text::occurs_at(
                a + "nearby pairing endpoint "@ + (host + seq![':'] + text::decimal(port) + rest),
                "nearby pairing endpoint "@,
                j,
            ),
    ensures
        failure_port(
            a + "nearby pairing endpoint "@ + (host + seq![':'] + text::decimal(port) + rest),
        ) == Some(port),
        !text::occurs(a, "nearby pairing endpoint "@) ==> failure_port(a) is None,
{
    let word = host + seq![':'] + text::decimal(port);
    text_laws::law_rest_after_the_first(a, "nearby pairing endpoint "@, word + rest);
    text_laws::law_written_numbers_are_digits(port, Seq::empty());
    assert forall|i: int| 0 <= i < word.len() implies !text::is_white(#[trigger] word[i]) by {
        if i > host.len() {
            assert(word[i] == text::decimal(port)[i - host.len() - 1]);
            assert(text::is_digit(text::decimal(port)[i - host.len() - 1]));
        } else if i < host.len() {
            assert(word[i] == host[i]);
        }
    }
    text_laws::law_first_word_is_found(Seq::empty(), word, rest);
    assert(Seq::<char>::empty() + word + rest =~= word + rest);
    law_endpoint_is_host_and_port(host, port);
}

/// The words of a failure, case aside, decide on the advice; where several fit, a wrong
/// code comes first, then a lockout, a stale request, a refusal, a missing approval,
/// too many requests, no answer, and last a machine that was not reached.
pub proof fn law_advice_goes_by_the_words(message: Seq<char>)
    ensures
        ({
            let m = text::lowered(message);
            let code = text::occurs(m, "attempts_remaining="@);
            let locked = text::occurs(m, "temporarily locked"@);
            let stale = text::occurs(m, "verification nonce is invalid"@) || text::occurs(
                m,
                "verification code and nonce are invalid"@,
            );
            let rejected = text::occurs(m, "pairing request rejected"@);
            let unapproved = text::occurs(m, "timed out waiting for nearby pairing approval"@);
            let limited = text::occurs(m, "nearby code request rate limited"@);
            let silent = text::occurs(m, "nearby pairing endpoint closed without a response"@);
            let unreached = text::occurs(m, "read nearby pairing response timed out"@)
                || text::occurs(m, "connect nearby pairing endpoint"@) || text::occurs(
                m,
                "send nearby pairing request timed out"@,
            );
            let advice = advice_for(message);
            &&& advice is RetryCode <==> code
            &&& advice is WaitForLockout <==> !code && locked
            &&& advice is Stale <==> !code && !locked && stale
            &&& advice is Rejected <==> !code && !locked && !stale && rejected
            &&& advice is NotApproved <==> !code && !locked && !stale && !rejected && unapproved
            &&& advice is RateLimited <==> !code && !locked && !stale && !rejected && !unapproved
                && limited
            &&& advice is NoResponse <==> !code && !locked && !stale && !rejected && !unapproved
                && !limited && silent
            &&& advice is Unreachable <==> !code && !locked && !stale && !rejected && !unapproved
                && !limited && !silent && unreached
            &&& retry_may_help(message) <==> rejected || unapproved || silent || unreached
                || text::occurs(m, "verification code expired"@) || text::occurs(
                m,
                "nearby pairing request not found"@,
            )
        }),
{
}

/// Every known failure comes with advice, another one with none. A wrong code comes
/// with the attempts left, a machine that was not reached with its port, where known.
pub proof fn law_advice_is_given_for_known_failures(message: Seq<char>)
    ensures
        advice_text(message).len() == 0 <==> advice_for(message) is Unknown,
        advice_for(message) is RetryCode ==> advice_text(message)
            == "\n\nCode confirmation failed.\nDouble-check the 6-digit code and retry."@ + (
        match failure_attempts(message) {
            Some(n) => "\nAttempts remaining: "@ + text::decimal(n) + "."@,
            None => Seq::empty(),
        }),
        advice_for(message) is Unreachable ==> text::starts(
            advice_text(message),
            "\n\nThe remote pairing service was discovered, but"@ + (match failure_port(message) {
                Some(port) => " TCP "@ + text::decimal(port),
                None => " the nearby pairing TCP port"@,
            }),
        ),
{
    reveal_strlit("");
    reveal_strlit("\n\nCode confirmation failed.\nDouble-check the 6-digit code and retry.");
    reveal_strlit(
        "\n\nToo many invalid attempts were submitted.\nWait for lockout to expire, then start a new pairing request.",
    );
    reveal_strlit(
        "\n\nThis pairing request is stale or mismatched.\nStart a new request and enter the fresh code from the target machine.",
    );
    reveal_strlit(
        "\n\nThe target rejected the request.\nStart a new pairing request from the tray and confirm on the target machine.",
    );
    reveal_strlit(
        "\n\nThe target did not approve in time.\nStart a new pairing request and approve it on the target before timeout.",
    );
    reveal_strlit(
        "\n\nCode requests are briefly rate-limited.\nWait a few seconds and retry.",
    );
    reveal_strlit(
        "\n\nThe remote pairing service did not respond.\nVerify both trays are updated and retry.",
    );
    reveal_strlit("\n\nThe remote pairing service was discovered, but");
    if advice_for(message) is RetryCode {
        assert(""@ =~= Seq::empty());
    }
    if advice_for(message) is Unreachable {
        let front = "\n\nThe remote pairing service was discovered, but"@ + (match failure_port(
            message,
        ) {
            Some(port) => " TCP "@ + text::decimal(port),
            None => " the nearby pairing TCP port"@,
        });
        let end =
            " was not reachable or did not respond.\nVerify both machines are on a trusted Private network. If a firewall rule is needed, make it a manual, admin-approved Private-profile rule scoped to %ProgramFiles%\\Boundless\\boundless-service.exe. Transport also needs TCP 15100 after trust is established."@;
        assert(advice_text(message) =~= front + end);
        assert((front + end).subrange(0, front.len() as int) =~= front);
    }
}

/// A pairing begins under a new number, with an empty code, the flow's alias and
/// nothing left of an earlier attempt.
pub proof fn law_pairing_begins_clean(
    session: PairingSession,
    flow: GuidedPairingFlow,
    next: PairingSession,
)
    requires
        session.begun(flow, next),
    ensures
        session.attempt_seq < u64::MAX ==> next.attempt_seq == session.attempt_seq + 1,
        session.attempt_seq == u64::MAX ==> next.attempt_seq == u64::MAX,
        next.active_attempt_id == Some(next.attempt_seq),
        forall|id: u64| #[trigger] next.listens_to(id) <==> id == next.attempt_seq,
        next.flow == Some(flow),
        next.in_progress,
        next.shown_dialog() is Requesting,
        next.code@.len() == 0,
        next.alias@ == flow.default_alias@,
        next.challenge is None,
        next.last_error is None,
        next.banner is None,
        next.banner_is_error == session.banner_is_error,
        !next.retry_available,
        !next.role_reversal_available,
        next.role_reversal_attempt_id is None,
        next.role_reversal_message is None,
{
}

/// A pairing that was ended shows no dialog and hears no message; what was entered and
/// what was last said of it stay.
pub proof fn law_cancelled_pairing_is_over(session: PairingSession, id: u64)
    ensures
        ({
            let next = session.cancelled();
            &&& next.shown_dialog() is Hidden
            &&& !next.listens_to(id)
            &&& !next.in_progress && next.challenge is None && next.flow is None
            &&& next.active_attempt_id is None
            &&& !next.retry_available && !next.role_reversal_available
            &&& next.role_reversal_attempt_id is None && next.role_reversal_message is None
            &&& next.attempt_seq == session.attempt_seq
            &&& next.code == session.code && next.alias == session.alias
            &&& next.last_error == session.last_error
            &&& next.banner == session.banner && next.banner_is_error == session.banner_is_error
        }),
{
}

/// A challenge asks for the code and changes nothing else.
pub proof fn law_challenge_asks_for_the_code(
    session: PairingSession,
    challenge: PairingChallengeState,
    id: u64,
    next: PairingSession,
)
    requires
        session.active_attempt_id == Some(id),
        session.told(id, PairingMsg::Challenge(challenge), next),
    ensures
        next.shown_dialog() is EnterCode,
        next.challenge == Some(challenge),
        !next.in_progress,
        next.flow == session.flow,
        next.active_attempt_id == session.active_attempt_id,
        next.attempt_seq == session.attempt_seq,
        next.code == session.code && next.alias == session.alias,
        next.last_error == session.last_error,
        next.retry_available == session.retry_available,
        next.role_reversal_available == session.role_reversal_available,
        next.role_reversal_attempt_id == session.role_reversal_attempt_id,
        next.role_reversal_message == session.role_reversal_message,
        next.banner == session.banner && next.banner_is_error == session.banner_is_error,
{
}

/// A pairing that succeeded is over, and its machine is named.
pub proof fn law_completed_pairing_is_named(
    session: PairingSession,
    result: GuidedPairingResult,
    id: u64,
    next: PairingSession,
)
    requires
        session.active_attempt_id == Some(id),
        session.told(id, PairingMsg::Complete(result), next),
    ensures
        next.shown_dialog() is Hidden,
        next.active_attempt_id is None,
        next.flow is None && next.challenge is None && !next.in_progress,
        next.last_error is None,
        !next.banner_is_error,
        next.banner is Some,
        next.banner->0@ == "Pairing successful with "@ + short_text(result.peer_machine_id@)
            + " (selector: "@ + result.orientation_selector@ + ")"@,
        next.code == session.code && next.alias == session.alias,
        next.attempt_seq == session.attempt_seq,
        !next.retry_available && !next.role_reversal_available,
{
}

/// A failure is shown with its advice. The other machine's turn is offered only where it
/// offered it and its address is known.
pub proof fn law_failure_is_shown_with_advice(
    session: PairingSession,
    error: String,
    offer: Option<RoleReversalOffer>,
    id: u64,
    next: PairingSession,
)
    requires
        session.active_attempt_id == Some(id),
        session.told(id, PairingMsg::Failed { error, role_reversal: offer }, next),
    ensures
        !next.in_progress,
        next.last_error is Some && next.last_error->0@ == error@ + advice_text(error@),
        next.banner is Some && next.banner->0@ == error@ + advice_text(error@),
        next.banner_is_error,
        next.retry_available == retry_may_help(error@),
        next.active_attempt_id == session.active_attempt_id,
        next.attempt_seq == session.attempt_seq,
        session.challenge is None && session.flow is Some ==> next.shown_dialog() is Failure,
        next.role_reversal_available <==> offer is Some && session.flow is Some && text::trimmed(
            session.flow->0.host@,
        ).len() > 0,
        next.role_reversal_available ==> next.role_reversal_attempt_id == Some(
            offer->0.attempt_id,
        ) && next.role_reversal_message == Some(offer->0.next_action),
        !next.role_reversal_available ==> next.role_reversal_attempt_id is None
            && next.role_reversal_message is None,
{
}

/// The dialog asks for the code once there is a challenge, waits while a request is on
/// its way, and else shows a failure of a pairing that is not over.
pub proof fn law_dialog_follows_the_pairing(session: PairingSession)
    ensures
        session.shown_dialog() is EnterCode <==> session.challenge is Some,
        session.shown_dialog() is Requesting <==> session.challenge is None && session.in_progress,
        session.shown_dialog() is Failure <==> session.challenge is None && !session.in_progress
            && session.flow is Some && session.last_error is Some,
{
}

/// A blank alias is none; another one is passed on as it was entered.
pub proof fn law_blank_alias_is_none(alias: Seq<char>)
    ensures
        alias_text(alias) is None <==> forall|i: int|
            0 <= i < alias.len() ==> text::is_white(#[trigger] alias[i]),
        alias_text(alias) is Some ==> alias_text(alias)->0 == alias,
{
    text_laws::law_trimming_takes_the_ends_off(alias);
}

/// A blank code is answered in words and nothing else changes.
pub proof fn law_blank_code_is_answered(session: PairingSession, next: PairingSession)
    requires
        session.code_refused(next),
    ensures
        next.last_error is Some && next.last_error->0@ == "pairing code cannot be empty"@,
        next.banner is Some && next.banner->0@ == "pairing code cannot be empty"@,
        next.banner_is_error,
        next.flow == session.flow && next.challenge == session.challenge,
        next.active_attempt_id == session.active_attempt_id,
        next.in_progress == session.in_progress,
        next.code == session.code && next.alias == session.alias,
        next.retry_available == session.retry_available,
        next.role_reversal_attempt_id == session.role_reversal_attempt_id,
{
}

/// A short name is the first eight bytes where a character ends there, else the whole.
pub proof fn law_short_name(value: Seq<char>, n: int)
    requires
        0 <= n <= value.len(),
        text::offset(value, n) == 8,
    ensures
        short_text(value) == value.take(n),
{
    text_laws::law_byte_places(value, n, 8);
}

/// A dialog that was never used shows nothing and hears nothing.
pub proof fn law_fresh_dialog_is_empty(session: PairingSession, id: u64)
    requires
        session.fresh(),
    ensures
        session.shown_dialog() is Hidden,
        !session.listens_to(id),
        session.flow is None,
        session.challenge is None,
        !session.in_progress,
        session.code@.len() == 0,
        session.alias@.len() == 0,
        session.attempt_seq == 0,
        session.active_attempt_id is None,
        session.last_error is None,
        !session.retry_available,
        !session.role_reversal_available,
        session.role_reversal_attempt_id is None,
        session.role_reversal_message is None,
        session.banner is None,
        !session.banner_is_error,
{
}

/// Flows that are the same agree in all that they lead to.
pub proof fn law_same_flows_agree(a: GuidedPairingFlow, b: GuidedPairingFlow)
    ensures
        same_flow(a, b) <==> a.host@ == b.host@ && a.pairing_port == b.pairing_port
            && a.dialog_title@ == b.dialog_title@ && a.default_alias@ == b.default_alias@
            && a.orientation_selector_fallback@ == b.orientation_selector_fallback@
            && a.endpoint_candidates@ == b.endpoint_candidates@,
{
}

/// A pairing that is started asks for a code under the number of its attempt, for the
/// flow that the dialog shows.
pub proof fn law_started_pairing_asks_for_a_code(
    model: DashboardModel,
    flow: GuidedPairingFlow,
    next: DashboardModel,
    command: DashboardCommand,
)
    requires
        model.pairing_started(flow, next, command),
    ensures
        command is RequestPairingCode,
        next.pairing.listens_to(command->RequestPairingCode_attempt_id),
        command->RequestPairingCode_flow.host@ == flow.host@,
        command->RequestPairingCode_flow.pairing_port == flow.pairing_port,
        command->RequestPairingCode_flow.endpoint_candidates@ == flow.endpoint_candidates@,
        command->RequestPairingCode_flow.default_alias@ == flow.default_alias@,
        next.pairing.shown_dialog() is Requesting,
        next.pairing.flow is Some,
        next.pairing.flow->0.host@ == flow.host@,
        next.pairing.flow->0.pairing_port == flow.pairing_port,
        next.pairing.flow->0.dialog_title@ == flow.dialog_title@,
        next.pairing.alias@ == flow.default_alias@,
        next.pairing.code@.len() == 0,
        next.snapshot == model.snapshot,
        next.toasts == model.toasts,
        next.layout == model.layout,
        next.selected_tab == model.selected_tab,
{
}

proof fn lemma_narrow_offset(s: Seq<char>, n: int)
    requires
        0 <= n <= s.len(),
        forall|i: int| 0 <= i < n ==> (#[trigger] s[i] as u32) < 0x80,
    ensures
        text::offset(s, n) == n,
    decreases n,
{
    if n > 0 {
        lemma_narrow_offset(s, n - 1);
        assert((s[n - 1] as u32) < 0x80);
        assert(text::width(s[n - 1]) == 1);
    }
}

/// A time is shown with its date and the time of the day to the second; what has no `T`
/// behind the date is shown as it is.
pub proof fn law_times_are_shown_to_the_second(
    date: Seq<char>,
    mark: char,
    time: Seq<char>,
    rest: Seq<char>,
)
    requires
        date.len() == 10,
        time.len() == 8,
        forall|i: int| 0 <= i < 10 ==> (#[trigger] date[i] as u32) < 0x80,
        forall|i: int| 0 <= i < 8 ==> (#[trigger] time[i] as u32) < 0x80,
        (mark as u32) < 0x80,
    ensures
        ({
            let iso = date + seq![mark] + time + rest;
            &&& mark == 'T' ==> timestamp_text(iso) == date + seq![' '] + time
            &&& mark != 'T' ==> timestamp_text(iso) == iso
        }),
{
    let iso = date + seq![mark] + time + rest;
    assert forall|i: int| 0 <= i < 19 implies (#[trigger] iso[i] as u32) < 0x80 by {
        if i < 10 {
            assert(iso[i] == date[i]);
        } else if i > 10 {
            assert(iso[i] == time[i - 11]);
        }
    }
    lemma_narrow_offset(iso, 10);
    lemma_narrow_offset(iso, 19);
    text_laws::law_byte_places(iso, 10, 10);
    text_laws::law_byte_places(iso, 19, 19);
    assert(iso.take(10) =~= date);
    assert(iso.subrange(11, 19) =~= time);
    assert(iso[10] == mark);
    reveal_strlit(" ");
    assert(" "@ =~= seq![' ']);
}

/// A text that ends before its time does is shown as it is.
pub proof fn law_short_times_are_shown_as_they_are(iso: Seq<char>)
    requires
        text::offset(iso, iso.len() as int) < 19,
    ensures
        timestamp_text(iso) == iso,
{
    if text::prefix_at(iso, 19) is Some {
        let n = text::prefix_at(iso, 19)->0;
        assert(0 <= n <= iso.len() && text::offset(iso, n) == 19);
        if n < iso.len() {
            text::lemma_offset_grows(iso, n, iso.len() as int);
        }
    }
}

/// A selector that means one machine means no other one.
pub proof fn law_selector_means_one_machine(
    peers: Seq<UiDiscoveredPeer>,
    selector: Seq<char>,
    at: int,
    other: int,
)
    requires
        0 <= at < peers.len(),
        0 <= other < peers.len(),
        other != at,
    ensures
        only_selected(peers, selector, at) ==> selects(peers[at], selector) && !selects(
            peers[other],
            selector,
        ),
        peers.len() == 2 ==> (only_selected(peers, selector, at) <==> selects(peers[at], selector)
            && !selects(peers[other], selector)),
        only_selected(seq![peers[at]], selector, 0) <==> selects(peers[at], selector),
{
    let one = seq![peers[at]];
    assert(one[0] == peers[at]);
    if only_selected(peers, selector, at) {
        assert(!selects(peers[other], selector));
    }
}

} // verus!
