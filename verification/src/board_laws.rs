//! What holds of the state behind the window, field by field, and of what its cells read.

use vstd::prelude::*;

use crate::board;
use crate::board::{AddForm, Board, BoardView, FormView};
use crate::collector::TaskView;
use crate::score::Encryption;
use crate::servers;
use crate::servers::{EntryView, ResultView};
use crate::servers_laws;
use crate::text;

verus! {

/// A form describes a server at the address typed in, without the whitespace around it; with no, some
/// or full encryption for no kind of it, one, or more; recommended in full; asked over HTTPS at the
/// URL typed in, without the whitespace around it, unless there is none. Nothing has been measured of
/// it.
pub proof fn law_form_describes_server(form: FormView)
    ensures
        board::described(form) == (EntryView {
            address: text::trimmed(form.address),
            encryption: if form.encryption_count == 0 {
                Encryption::Plain
            } else if form.encryption_count == 1 {
                Encryption::Partial
            } else {
                Encryption::Full
            },
            recommendation: 100,
            doh: if text::trimmed(form.doh) == Seq::<char>::empty() {
                None
            } else {
                Some(text::trimmed(form.doh))
            },
            dns_latency: None,
            resolve_quality: None,
            score: None,
        }),
{
    if text::trimmed(form.doh).len() == 0 {
        assert(text::trimmed(form.doh) =~= Seq::<char>::empty());
    }
}

/// Adding a server puts it behind all others, clears the form and closes it, and changes nothing
/// else.
pub proof fn law_adding_appends(before: BoardView)
    ensures
        ({
            let after = before.added();
            &&& after.entries == before.entries.push(board::described(before.add_form))
            &&& after.add_form.address == Seq::<char>::empty()
            &&& after.add_form.encryption_count == 0
            &&& after.add_form.doh == Seq::<char>::empty()
            &&& !after.add_window_open
            &&& after.testing == before.testing
            &&& after.use_proxy == before.use_proxy
            &&& after.proxy_port == before.proxy_port
        }),
{
}

/// Taking in results changes the servers, ends the test if nothing more will come, and changes
/// nothing else. A test that is not under way does not start.
pub proof fn law_polling_touches_servers_only(
    before: BoardView,
    results: Seq<ResultView>,
    done: bool,
    after: BoardView,
)
    requires
        before.polled(results, done, after),
    ensures
        after.testing == (before.testing && !done),
        after.add_window_open == before.add_window_open,
        after.add_form == before.add_form,
        after.use_proxy == before.use_proxy,
        after.proxy_port == before.proxy_port,
        servers::is_ranking(servers::all_filled_in(before.entries, results), after.entries),
{
}

/// After results have been taken in, the servers stand by their scores, each as often as before, and
/// each with what the last result for its address says.
pub proof fn law_polling_ranks(
    before: BoardView,
    results: Seq<ResultView>,
    done: bool,
    after: BoardView,
    i: int,
    j: int,
)
    requires
        before.polled(results, done, after),
        0 <= i < j < after.entries.len(),
    ensures
        match (after.entries[i].score, after.entries[j].score) {
            (Some(a), Some(b)) => servers_laws::worth(a) >= servers_laws::worth(b),
            (Some(_), None) => true,
            (None, Some(_)) => false,
            (None, None) => true,
        },
        after.entries.len() == before.entries.len(),
        after.entries.to_multiset() == Seq::new(
            before.entries.len(),
            |k: int|
                if servers_laws::first_at_address(before.entries, k) {
                    servers_laws::updated(before.entries[k], results)
                } else {
                    before.entries[k]
                },
        ).to_multiset(),
{
    let filled = servers::all_filled_in(before.entries, results);
    let expected = Seq::new(
        before.entries.len(),
        |k: int|
            if servers_laws::first_at_address(before.entries, k) {
                servers_laws::updated(before.entries[k], results)
            } else {
                before.entries[k]
            },
    );
    servers::law_ranking_keeps_servers(filled, after.entries);
    servers_laws::law_ranking_orders_by_worth(filled, after.entries, i, j);
    lemma_filled_len(before.entries, results);
    assert forall|k: int| 0 <= k < filled.len() implies #[trigger] filled[k] == expected[k] by {
        servers_laws::law_last_result_counts(before.entries, results, k);
    }
    assert(filled =~= expected);
}

/// Filling in results leaves as many servers as there were.
proof fn lemma_filled_len(entries: Seq<EntryView>, results: Seq<ResultView>)
    ensures
        servers::all_filled_in(entries, results).len() == entries.len(),
    decreases results.len(),
{
    if results.len() > 0 {
        let before = servers::all_filled_in(entries, results.drop_last());
        lemma_filled_len(entries, results.drop_last());
        if before.len() > 0 {
            servers::law_filled_in_elsewhere_unchanged(before, results.last(), 0);
        }
    }
}

/// The proxy is the one on this machine at the port that is set, and there is none unless tests are
/// to go through it.
pub proof fn law_proxy_is_local(use_proxy: bool, port: u16)
    ensures
        board::proxy_text(use_proxy, port) == if use_proxy {
            Some("127.0.0.1:"@ + text::decimal(port as nat))
        } else {
            None
        },
{
}

/// The task of testing a server has what is set of the server.
pub proof fn law_task_has_settings(entry: EntryView)
    ensures
        board::task_of(entry) == (TaskView {
            address: entry.address,
            encryption: entry.encryption,
            recommendation: entry.recommendation,
            doh: entry.doh,
        }),
{
}

/// A cell for milliseconds reads as a timeout beyond 1000, otherwise as the number with a decimal and
/// the unit; without a number it tells whether a test is under way.
pub proof fn law_millis_cell(v: Option<u128>, testing: bool)
    ensures
        board::ms_cell(v, testing) == match v {
            Some(ms) => if ms > 1000 {
                "超时"@
            } else {
                text::decimal(ms as nat) + ".0 ms"@
            },
            None => if testing {
                "测试中..."@
            } else {
                "-"@
            },
        },
{
}

/// A cell for a score reads as the score; without one, as a timeout if one of the measurements is
/// beyond 1000, and otherwise it tells whether a test is under way.
pub proof fn law_score_cell(
    score: Option<Seq<char>>,
    latency: Option<u128>,
    quality: Option<u128>,
    testing: bool,
)
    ensures
        board::score_cell(score, latency, quality, testing) == match score {
            Some(number) => number,
            None => if (latency is Some && latency->0 > 1000) || (quality is Some && quality->0
                > 1000) {
                "超时"@
            } else if testing {
                "测试中..."@
            } else {
                "-"@
            },
        },
{
}

/// The state and its form are shown with everything that is in them.
pub proof fn law_board_shown_whole(state: Board, form: AddForm)
    ensures
        state@.entries == servers::entry_views(state.entries@),
        state@.add_window_open == state.add_window_open,
        state@.add_form == state.add_form@,
        state@.testing == state.testing,
        state@.use_proxy == state.use_proxy,
        state@.proxy_port == state.proxy_port,
        form@.address == form.address@,
        form@.encryption_count == form.encryption_count,
        form@.doh == form.doh@,
{
}

/// The settings that are there from the start.
pub proof fn law_settings()
    ensures
        board::TITLE@ == "Dns检测"@,
        board::TIMEOUT_SECS == 3,
        board::PING_COUNT == 5,
        board::MAX_RUNNING == 5,
        board::MAX_PINGING == 2,
        board::MAX_RESOLVING == 2,
        board::DEFAULT_PROXY_PORT == 1080,
        board::empty_form() == (FormView {
            address: Seq::empty(),
            encryption_count: 0,
            doh: Seq::empty(),
        }),
{
    assert(board::empty_form().address =~= Seq::empty());
    assert(board::empty_form().doh =~= Seq::empty());
}

} // verus!
