//! The state behind the window: the list of DNS servers, the form for adding one, and the settings
//! of a test.

use vstd::prelude::*;
use vstd::string::StringExecFns;

use crate::collector;
use crate::collector::{Task, TaskView, LATENCY_TIMEOUT_MS};
use crate::score::Encryption;
use crate::servers;
use crate::servers::{DnsEntry, EntryView, TestResult};
use crate::text;

verus! {

/// The title of the window.
pub const TITLE: &'static str = "Dns检测";

/// How many seconds a test waits for a connection or an answer.
pub const TIMEOUT_SECS: u64 = 3;

/// How many times a test pings a server.
pub const PING_COUNT: usize = 5;

/// How many parts of tests run at the same time.
pub const MAX_RUNNING: usize = 5;

/// How many latencies are measured at the same time.
pub const MAX_PINGING: usize = 2;

/// How many resolve qualities are measured at the same time.
pub const MAX_RESOLVING: usize = 2;

/// The port that a proxy on this machine is expected at from the start.
pub const DEFAULT_PROXY_PORT: u16 = 1080;

/// The recommendation, in percent, of a server that the user adds.
pub const ADDED_RECOMMENDATION: u8 = 100;

// ---------------------------------------------------------------------------------------------
// Adding a server
// ---------------------------------------------------------------------------------------------

/// The form for adding a server.
#[derive(Debug)]
pub struct AddForm {
    pub address: String,
    /// How many kinds of encryption the server supports: none, one, or more.
    pub encryption_count: u8,
    /// The URL to ask over HTTPS; empty if there is none.
    pub doh: String,
}

/// The form for adding a server, as a mathematical value.
pub struct FormView {
    pub address: Seq<char>,
    pub encryption_count: u8,
    pub doh: Seq<char>,
}

impl View for AddForm {
    type V = FormView;

    open spec fn view(&self) -> FormView {
        FormView {
            address: self.address@,
            encryption_count: self.encryption_count,
            doh: self.doh@,
        }
    }
}

/// The form with nothing filled in.
pub open spec fn empty_form() -> FormView {
    FormView { address: seq![], encryption_count: 0, doh: seq![] }
}

impl Default for AddForm {
    /// The form with nothing filled in.
    fn default() -> (form: Self)
        ensures
            form@ == empty_form(),
    {
        let form = AddForm { address: String::new(), encryption_count: 0, doh: String::new() };
        assert(form.address@ =~= seq![]);
        assert(form.doh@ =~= seq![]);
        form
    }
}

/// How far a server supports encryption that supports so many kinds of it.
pub open spec fn encryption_for(count: u8) -> Encryption {
    match count {
        0 => Encryption::Plain,
        1 => Encryption::Partial,
        _ => Encryption::Full,
    }
}

/// The server that a form describes. Whitespace around what was typed in does not count.
pub open spec fn described(form: FormView) -> EntryView {
    servers::untested(
        text::trimmed(form.address),
        encryption_for(form.encryption_count),
        ADDED_RECOMMENDATION,
        if text::trimmed(form.doh).len() == 0 {
            None
        } else {
            Some(text::trimmed(form.doh))
        },
    )
}

impl AddForm {
    /// The server that the form describes.
    pub fn to_entry(&self) -> (entry: DnsEntry)
        ensures
            entry@ == described(self@),
    {
        let encryption: Encryption = match self.encryption_count {
            0 => Encryption::Plain,
            1 => Encryption::Partial,
            _ => Encryption::Full,
        };
        let address: String = text::trim(self.address.as_str());
        let url: String = text::trim(self.doh.as_str());
        let doh: Option<&str> = if url.as_str().is_empty() {
            None
        } else {
            Some(url.as_str())
        };
        DnsEntry::new(address.as_str(), encryption, ADDED_RECOMMENDATION, doh)
    }
}

// ---------------------------------------------------------------------------------------------
// The board
// ---------------------------------------------------------------------------------------------

/// The state behind the window.
#[derive(Debug)]
pub struct Board {
    pub entries: Vec<DnsEntry>,
    pub add_window_open: bool,
    pub add_form: AddForm,
    /// Whether a test is under way.
    pub testing: bool,
    /// Whether tests go through a SOCKS5 proxy. Queries over HTTPS never do.
    pub use_proxy: bool,
    /// The port of the proxy.
    pub proxy_port: u16,
}

/// The state behind the window, as a mathematical value.
pub struct BoardView {
    pub entries: Seq<EntryView>,
    pub add_window_open: bool,
    pub add_form: FormView,
    pub testing: bool,
    pub use_proxy: bool,
    pub proxy_port: u16,
}

impl View for Board {
    type V = BoardView;

    open spec fn view(&self) -> BoardView {
        BoardView {
            entries: servers::entry_views(self.entries@),
            add_window_open: self.add_window_open,
            add_form: self.add_form@,
            testing: self.testing,
            use_proxy: self.use_proxy,
            proxy_port: self.proxy_port,
        }
    }
}

impl Default for Board {
    /// The state at the start.
    fn default() -> (board: Self)
        ensures
            board@ == (BoardView {
                entries: servers::initial_entries(),
                add_window_open: false,
                add_form: empty_form(),
                testing: false,
                use_proxy: false,
                proxy_port: DEFAULT_PROXY_PORT,
            }),
    {
        Board {
            entries: servers::default_entries(),
            add_window_open: false,
            add_form: AddForm::default(),
            testing: false,
            use_proxy: false,
            proxy_port: DEFAULT_PROXY_PORT,
        }
    }
}

/// The address of the proxy at `port` of this machine, if there is to be one.
pub open spec fn proxy_text(use_proxy: bool, port: u16) -> Option<Seq<char>> {
    if use_proxy {
        Some("127.0.0.1:"@ + text::decimal(port as nat))
    } else {
        None
    }
}

/// The address of the proxy at `port` of this machine, if there is to be one.
pub fn proxy_address(use_proxy: bool, port: u16) -> (proxy: Option<String>)
    ensures
        text::opt_chars(proxy) == proxy_text(use_proxy, port),
{
    if use_proxy {
        let mut address: String = "127.0.0.1:".to_owned();
        text::push_decimal(&mut address, port as u64);
        Some(address)
    } else {
        None
    }
}

/// The task of testing a server.
pub open spec fn task_of(entry: EntryView) -> TaskView {
    TaskView {
        address: entry.address,
        encryption: entry.encryption,
        recommendation: entry.recommendation,
        doh: entry.doh,
    }
}

impl BoardView {
    /// Once `results` have come in: they are filled in, and the servers are ranked anew. The last of
    /// them ends the test.
    pub open spec fn polled(
        self,
        results: Seq<servers::ResultView>,
        done: bool,
        after: BoardView,
    ) -> bool {
        &&& servers::is_ranking(servers::all_filled_in(self.entries, results), after.entries)
        &&& after == BoardView {
            entries: after.entries,
            testing: self.testing && !done,
            ..self
        }
    }

    /// Once the server that the form describes has been added: the form is empty again, and closed.
    pub open spec fn added(self) -> BoardView {
        BoardView {
            entries: self.entries.push(described(self.add_form)),
            add_form: empty_form(),
            add_window_open: false,
            ..self
        }
    }
}

impl Board {
    /// Starts a test of all servers: which ones there are to be tested, and by way of which proxy.
    pub fn start_test(&mut self) -> (start: (Vec<Task>, Option<String>))
        ensures
            final(self)@ == (BoardView { testing: true, ..old(self)@ }),
            collector::task_views(start.0@) == old(self)@.entries.map_values(
                |e: EntryView| task_of(e),
            ),
            text::opt_chars(start.1) == proxy_text(old(self)@.use_proxy, old(self)@.proxy_port),
    {
        self.testing = true;
        let mut tasks: Vec<Task> = Vec::new();
        let mut i: usize = 0;
        while i < self.entries.len()
            invariant
                i <= self.entries@.len(),
                tasks@.len() == i,
                forall|k: int| 0 <= k < i ==> (#[trigger] tasks@[k])@ == task_of(self.entries@[k]@),
            decreases self.entries@.len() - i,
        {
            let doh: Option<String> = match &self.entries[i].doh {
                Some(url) => Some(url.clone()),
                None => None,
            };
            tasks.push(
                Task {
                    address: self.entries[i].address.clone(),
                    encryption: self.entries[i].encryption,
                    recommendation: self.entries[i].recommendation,
                    doh,
                },
            );
            i += 1;
        }
        assert(collector::task_views(tasks@) =~= self@.entries.map_values(
            |e: EntryView| task_of(e),
        ));
        (tasks, proxy_address(self.use_proxy, self.proxy_port))
    }

    /// Takes in what has come of the test so far; `done` tells that nothing more will come.
    pub fn poll_test_results(&mut self, results: &Vec<TestResult>, done: bool)
        ensures
            old(self)@.polled(servers::result_views(results@), done, final(self)@),
    {
        let ghost before = self@.entries;
        let ghost all = servers::result_views(results@);
        let mut i: usize = 0;
        assert(all.take(0) =~= seq![]);
        while i < results.len()
            invariant
                i <= results@.len(),
                all == servers::result_views(results@),
                self@ == (BoardView {
                    entries: servers::all_filled_in(before, all.take(i as int)),
                    ..old(self)@
                }),
            decreases results@.len() - i,
        {
            servers::fill_in(&mut self.entries, &results[i]);
            assert(all.take(i + 1).drop_last() =~= all.take(i as int));
            i += 1;
        }
        assert(all.take(i as int) =~= all);
        if done {
            self.testing = false;
        }
        servers::sort_entries_by_score(&mut self.entries);
    }

    /// Opens the form for adding a server.
    pub fn open_add_window(&mut self)
        ensures
            final(self)@ == (BoardView { add_window_open: true, ..old(self)@ }),
    {
        self.add_window_open = true;
    }

    /// Closes the form for adding a server. What is filled in stays for the next time.
    pub fn close_add_window(&mut self)
        ensures
            final(self)@ == (BoardView { add_window_open: false, ..old(self)@ }),
    {
        self.add_window_open = false;
    }

    /// Adds the server that the form describes.
    pub fn add_entry(&mut self)
        ensures
            final(self)@ == old(self)@.added(),
    {
        let entry: DnsEntry = self.add_form.to_entry();
        self.entries.push(entry);
        self.add_form = AddForm::default();
        self.add_window_open = false;
        assert(self@.entries =~= old(self)@.added().entries);
    }
}

/// While nothing comes in and nothing ends, a list that is ranked stays as it is.
pub proof fn law_idle_poll_changes_nothing(board: BoardView, after: BoardView)
    requires
        servers::ranked(board.entries),
        board.polled(seq![], false, after),
    ensures
        after == board,
{
    servers::law_ranking_of_ranked(board.entries, after.entries);
}

/// However results come in, the servers stay the same: none is lost, none is added, and only what
/// tests find out changes.
pub proof fn law_poll_keeps_servers(
    board: BoardView,
    results: Seq<servers::ResultView>,
    done: bool,
    after: BoardView,
)
    requires
        board.polled(results, done, after),
    ensures
        after.entries.len() == board.entries.len(),
        after.entries.map_values(|e: EntryView| task_of(e)).to_multiset()
            == board.entries.map_values(|e: EntryView| task_of(e)).to_multiset(),
{
    let filled = servers::all_filled_in(board.entries, results);
    lemma_filling_in_keeps_tasks(board.entries, results);
    servers::law_ranking_keeps_servers(filled, after.entries);
    lemma_tasks_of_same_servers(filled, after.entries);
}

/// Filling in results leaves alone what is not found out by tests.
proof fn lemma_filling_in_keeps_tasks(entries: Seq<EntryView>, results: Seq<servers::ResultView>)
    ensures
        servers::all_filled_in(entries, results).len() == entries.len(),
        servers::all_filled_in(entries, results).map_values(|e: EntryView| task_of(e))
            == entries.map_values(|e: EntryView| task_of(e)),
    decreases results.len(),
{
    if results.len() > 0 {
        let before = servers::all_filled_in(entries, results.drop_last());
        lemma_filling_in_keeps_tasks(entries, results.drop_last());
        let now = servers::filled_in(before, results.last());
        if before.len() > 0 {
            servers::law_filled_in_elsewhere_unchanged(before, results.last(), 0);
        }
        assert forall|i: int| 0 <= i < before.len() implies task_of(#[trigger] now[i]) == task_of(
            before[i],
        ) by {
            servers::law_filled_in_elsewhere_unchanged(before, results.last(), i);
        }
        assert(now.map_values(|e: EntryView| task_of(e)) =~= before.map_values(
            |e: EntryView| task_of(e),
        ));
    }
}

/// The same servers in another order make the same tasks in another order.
proof fn lemma_tasks_of_same_servers(a: Seq<EntryView>, b: Seq<EntryView>)
    requires
        a.to_multiset() == b.to_multiset(),
    ensures
        a.map_values(|e: EntryView| task_of(e)).to_multiset() == b.map_values(
            |e: EntryView| task_of(e),
        ).to_multiset(),
    decreases a.len(),
{
    broadcast use vstd::seq_lib::group_to_multiset_ensures;

    let f = |e: EntryView| task_of(e);
    assert(a.len() == a.to_multiset().len());
    assert(b.len() == b.to_multiset().len());
    if a.len() == 0 {
        assert(a.map_values(f) =~= b.map_values(f));
    } else {
        let last = a.last();
        let front = a.drop_last();
        assert(a =~= front.push(last));
        assert(a.contains(last));
        assert(b.to_multiset().count(last) > 0);
        assert(b.contains(last));
        let k = choose|k: int| 0 <= k < b.len() && b[k] == last;
        let rest = b.remove(k);
        assert(rest.to_multiset() =~= b.to_multiset().remove(last));
        assert(front.to_multiset() =~= a.to_multiset().remove(last));
        lemma_tasks_of_same_servers(front, rest);
        assert(a.map_values(f) =~= front.map_values(f).push(f(last)));
        assert(b.map_values(f).remove(k) =~= rest.map_values(f));
        assert(b.map_values(f)[k] == f(last));
        assert(rest.map_values(f).to_multiset() =~= b.map_values(f).to_multiset().remove(f(last)));
        assert(a.map_values(f).to_multiset() =~= front.map_values(f).to_multiset().insert(f(last)));
        assert(b.map_values(f).to_multiset().count(f(last)) > 0);
        assert(b.map_values(f).to_multiset() =~= rest.map_values(f).to_multiset().insert(f(last)));
    }
}

// ---------------------------------------------------------------------------------------------
// Cells
// ---------------------------------------------------------------------------------------------

/// What is shown where there is no value.
pub open spec fn no_value(testing: bool) -> Seq<char> {
    if testing {
        "测试中..."@
    } else {
        "-"@
    }
}

/// What is shown where there is no value.
fn fmt_no_value(testing: bool) -> (cell: String)
    ensures
        cell@ == no_value(testing),
{
    if testing {
        "测试中...".to_owned()
    } else {
        "-".to_owned()
    }
}

/// The cell for a number of milliseconds: with one decimal, unless it counts as a timeout.
pub open spec fn ms_cell(v: Option<u128>, testing: bool) -> Seq<char> {
    match v {
        Some(x) => if x > LATENCY_TIMEOUT_MS {
            "超时"@
        } else {
            text::decimal(x as nat) + ".0 ms"@
        },
        None => no_value(testing),
    }
}

/// The cell for a number of milliseconds.
pub fn fmt_ms(v: Option<u128>, testing: bool) -> (cell: String)
    ensures
        cell@ == ms_cell(v, testing),
{
    match v {
        Some(x) => if x > LATENCY_TIMEOUT_MS {
            "超时".to_owned()
        } else {
            let mut cell: String = String::new();
            text::push_decimal(&mut cell, x as u64);
            cell.append(".0 ms");
            assert(cell@ =~= text::decimal(x as nat) + ".0 ms"@);
            cell
        },
        None => fmt_no_value(testing),
    }
}

/// The cell for a score that reads `score`: without one, it tells why there is none.
pub open spec fn score_cell(
    score: Option<Seq<char>>,
    latency: Option<u128>,
    quality: Option<u128>,
    testing: bool,
) -> Seq<char> {
    match score {
        Some(number) => number,
        None => if collector::timed_out(latency) || collector::timed_out(quality) {
            "超时"@
        } else {
            no_value(testing)
        },
    }
}

/// The cell for a score that reads `score`.
pub fn fmt_score_cell(
    score: Option<String>,
    latency: Option<u128>,
    quality: Option<u128>,
    testing: bool,
) -> (cell: String)
    ensures
        cell@ == score_cell(text::opt_chars(score), latency, quality, testing),
{
    match score {
        Some(number) => number,
        None => if collector::is_timeout(latency) || collector::is_timeout(quality) {
            "超时".to_owned()
        } else {
            fmt_no_value(testing)
        },
    }
}

} // verus!
