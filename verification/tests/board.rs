use dns_checker::board::{fmt_ms, fmt_score_cell, proxy_address, AddForm, Board};
use dns_checker::servers::TestResult;
use dns_checker::score::Score;
use dns_checker::Encryption;

fn result(address: &str, points: Option<u8>) -> TestResult {
    let score = points.map(|latency_halves| Score {
        latency_halves,
        quality_thirds: 1,
        encryption_quarters: 1,
        recommendation_percent: 1,
    });
    TestResult {
        address: address.to_string(),
        dns_latency: Some(20),
        resolve_quality: Some(30),
        score,
    }
}

fn addresses(board: &Board) -> Vec<&str> {
    board.entries.iter().map(|e| e.address.as_str()).collect()
}

#[test]
fn board_at_the_start() {
    let board = Board::default();
    assert_eq!(
        addresses(&board),
        vec!["223.5.5.5", "119.29.29.29", "114.114.114.114", "1.1.1.1", "8.8.8.8", "9.9.9.9"]
    );
    assert!(!board.add_window_open);
    assert!(!board.testing);
    assert!(!board.use_proxy);
    assert_eq!(board.proxy_port, 1080);
    assert_eq!(board.add_form.address, "");
    assert_eq!(board.add_form.encryption_count, 0);
    assert_eq!(board.add_form.doh, "");
}

#[test]
fn proxy_is_on_this_machine() {
    assert_eq!(proxy_address(false, 1080), None);
    assert_eq!(proxy_address(true, 1080).as_deref(), Some("127.0.0.1:1080"));
    assert_eq!(proxy_address(true, 65535).as_deref(), Some("127.0.0.1:65535"));
    assert_eq!(proxy_address(true, 1).as_deref(), Some("127.0.0.1:1"));
}

#[test]
fn test_covers_every_server() {
    let mut board = Board::default();
    board.use_proxy = true;
    board.proxy_port = 7890;
    let (tasks, proxy) = board.start_test();
    assert!(board.testing);
    assert_eq!(proxy.as_deref(), Some("127.0.0.1:7890"));
    assert_eq!(tasks.len(), 6);
    for (task, entry) in tasks.iter().zip(board.entries.iter()) {
        assert_eq!(task.address, entry.address);
        assert_eq!(task.encryption, entry.encryption);
        assert_eq!(task.recommendation, entry.recommendation);
        assert_eq!(task.doh, entry.doh);
    }
}

#[test]
fn results_move_servers_up_as_they_come_in() {
    let mut board = Board::default();
    board.start_test();
    board.poll_test_results(&vec![result("8.8.8.8", Some(50)), result("1.1.1.1", Some(90))], false);
    assert!(board.testing);
    assert_eq!(
        addresses(&board),
        vec!["1.1.1.1", "8.8.8.8", "223.5.5.5", "119.29.29.29", "114.114.114.114", "9.9.9.9"]
    );
    board.poll_test_results(&vec![result("9.9.9.9", Some(70)), result("1.1.1.1", None)], true);
    assert!(!board.testing);
    assert_eq!(
        addresses(&board),
        vec!["9.9.9.9", "8.8.8.8", "1.1.1.1", "223.5.5.5", "119.29.29.29", "114.114.114.114"]
    );
}

#[test]
fn idle_poll_changes_nothing() {
    let mut board = Board::default();
    board.start_test();
    board.poll_test_results(&vec![result("9.9.9.9", Some(1))], false);
    let before: Vec<String> = addresses(&board).iter().map(|a| a.to_string()).collect();
    board.poll_test_results(&vec![], false);
    assert_eq!(addresses(&board), before);
    assert!(board.testing);
}

#[test]
fn form_describes_a_server() {
    let cases = [
        (0, Encryption::Plain),
        (1, Encryption::Partial),
        (2, Encryption::Full),
        (200, Encryption::Full),
    ];
    for (encryption_count, encryption) in cases {
        let form = AddForm {
            address: "  4.4.4.4\t".to_string(),
            encryption_count,
            doh: " https://doh ".to_string(),
        };
        let entry = form.to_entry();
        assert_eq!(entry.address, "4.4.4.4");
        assert_eq!(entry.encryption, encryption);
        assert_eq!(entry.recommendation, 100);
        assert_eq!(entry.doh.as_deref(), Some("https://doh"));
        assert_eq!(entry.score, None);
    }
    let form = AddForm { address: "a".to_string(), encryption_count: 0, doh: " \n".to_string() };
    assert_eq!(form.to_entry().doh, None);
}

#[test]
fn server_is_added_at_the_end() {
    let mut board = Board::default();
    board.open_add_window();
    assert!(board.add_window_open);
    board.add_form.address = " 4.4.4.4".to_string();
    board.add_form.encryption_count = 1;
    board.add_entry();
    assert!(!board.add_window_open);
    assert_eq!(board.add_form.address, "");
    assert_eq!(board.add_form.encryption_count, 0);
    assert_eq!(board.entries.len(), 7);
    assert_eq!(board.entries[6].address, "4.4.4.4");
    assert_eq!(board.entries[6].encryption, Encryption::Partial);
}

#[test]
fn cancelled_form_keeps_what_was_typed() {
    let mut board = Board::default();
    board.open_add_window();
    board.add_form.address = "draft".to_string();
    board.close_add_window();
    assert!(!board.add_window_open);
    assert_eq!(board.add_form.address, "draft");
    assert_eq!(board.entries.len(), 6);
}

#[test]
fn cells_of_milliseconds() {
    assert_eq!(fmt_ms(Some(0), true), "0.0 ms");
    assert_eq!(fmt_ms(Some(37), false), format!("{:.1} ms", 37.0));
    assert_eq!(fmt_ms(Some(1000), false), "1000.0 ms");
    assert_eq!(fmt_ms(Some(1001), false), "超时");
    assert_eq!(fmt_ms(None, true), "测试中...");
    assert_eq!(fmt_ms(None, false), "-");
}

#[test]
fn cells_of_scores() {
    let score = || Some(format!("{:.2}", 1400.0));
    assert_eq!(fmt_score_cell(score(), Some(20), Some(30), false), "1400.00");
    assert_eq!(fmt_score_cell(score(), Some(2000), None, true), "1400.00");
    assert_eq!(fmt_score_cell(None, Some(1001), None, true), "超时");
    assert_eq!(fmt_score_cell(None, Some(1), Some(1001), false), "超时");
    assert_eq!(fmt_score_cell(None, Some(1), Some(1), true), "测试中...");
    assert_eq!(fmt_score_cell(None, None, None, false), "-");
}
