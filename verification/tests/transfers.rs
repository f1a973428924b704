//! Downloads by ranges and by `aria2c`.

use lm_provision::aria2c::{
    argv, check_exit, finished, number, poll_body, poll_reply, progress_in, progress_report, secret,
    spawn_failure, split_dst, SPLIT,
};
use lm_provision::chunked::{
    check_partial, failed, range_header, range_lost, ranges, request_failed, total_of, Drain,
    FailedTry, NextTry, RangeQueue, Tally, Tries, CHUNK_SIZE, CONCURRENCY, MAX_ATTEMPTS, MIN_TOTAL,
};

#[test]
fn a_file_is_cut_into_whole_chunks_with_a_short_last_one() {
    let total = CHUNK_SIZE * 3 + 1234;
    let ends = ranges(total);
    assert_eq!(ends.len(), 4);
    assert_eq!(ends[0], (0, CHUNK_SIZE - 1));
    assert_eq!(ends[3], (CHUNK_SIZE * 3, total - 1));
    // Every byte exactly once: no gap to leave a hole and no overlap
    // to write one chunk over another.
    let covered: u64 = ends.iter().map(|(start, end)| end - start + 1).sum();
    assert_eq!(covered, total);
}

#[test]
fn a_file_of_exactly_one_chunk_is_one_range() {
    let ends: Vec<u64> = ranges(CHUNK_SIZE).iter().map(|(start, _)| *start).collect();
    assert_eq!(ends, vec![0]);
}

#[test]
fn the_threshold_leaves_room_for_two_chunks() {
    // Below this the route would spend a probe to discover it has
    // one range to fetch, which is the single-stream route with an
    // extra round trip.
    assert_eq!(MIN_TOTAL, CHUNK_SIZE * 2);
}

#[test]
fn the_concurrency_is_huggingfaces_own_default() {
    assert_eq!(CONCURRENCY, 16);
    assert_eq!(CHUNK_SIZE, 10 * 1024 * 1024);
}

#[test]
fn an_empty_file_has_no_range() {
    assert!(ranges(0).is_empty());
    let (queue, begin) = RangeQueue::open(0);
    assert!(begin.is_empty());
    assert_eq!(queue.running, 0);
}

#[test]
fn the_total_follows_the_last_slash() {
    assert_eq!(total_of("bytes 0-10485759/4265146304"), Some(4265146304));
    assert_eq!(total_of("bytes 0-1/ 12 "), Some(12));
    assert_eq!(total_of("bytes 0-1/*"), None);
    assert_eq!(total_of("bytes 0-1/"), None);
    assert_eq!(total_of("7"), Some(7));
    assert_eq!(total_of("x/18446744073709551615"), Some(u64::MAX));
    assert_eq!(total_of("x/18446744073709551616"), None);
}

#[test]
fn every_range_is_handed_out_once_and_no_more_run_than_may() {
    let total = CHUNK_SIZE * 20 + 1;
    let (mut queue, begin) = RangeQueue::open(total);
    assert_eq!(begin.len(), CONCURRENCY);
    let mut seen = begin;
    while queue.running > 0 {
        assert!(queue.running <= CONCURRENCY);
        if let Some(range) = queue.fetched() {
            seen.push(range);
        }
    }
    assert_eq!(seen, ranges(total));
}

#[test]
fn a_range_is_asked_for_by_its_bytes() {
    assert_eq!(range_header(0, 10485759), "bytes=0-10485759");
}

#[test]
fn a_response_that_is_no_range_fails_the_try() {
    assert!(check_partial(0, 9, 206).is_ok());
    assert_eq!(
        check_partial(10, 19, 200),
        Err(FailedTry {
            message: "range 10-19: expected 206, got 200".to_string(),
            partial: 0
        })
    );
    assert_eq!(
        request_failed(10, 19, "connection refused").message,
        "range 10-19: connection refused"
    );
}

#[test]
fn a_body_that_is_short_or_long_fails_with_what_it_wrote() {
    let mut drain = Drain::new(10, 19);
    drain.landed(4);
    assert_eq!(
        drain.read_failed("reset"),
        FailedTry {
            message: "range 10-19: reading the body: reset".to_string(),
            partial: 4
        }
    );
    assert_eq!(
        drain.write_failed("disk full").message,
        "range 10-19: writing at 14: disk full"
    );
    assert_eq!(
        drain.write_lost("cancelled").message,
        "range 10-19: writing: cancelled"
    );
    assert_eq!(
        drain.finish(),
        Err(FailedTry {
            message: "range 10-19: asked for 10 bytes and received 4".to_string(),
            partial: 4
        })
    );
    drain.landed(6);
    assert_eq!(drain.finish(), Ok(()));
    drain.landed(1);
    assert_eq!(drain.finish().unwrap_err().partial, 11);
}

#[test]
fn a_range_is_tried_five_times_and_waits_longer_each_time() {
    let mut tries = Tries::default();
    let mut waits = Vec::new();
    let reason = loop {
        match tries.next() {
            NextTry::Wait(ms) => {
                waits.push(ms);
                tries.note(format!("try {}", waits.len()));
            }
            NextTry::GiveUp(reason) => break reason,
        }
    };
    assert_eq!(waits, vec![0, 300, 600, 1200, 2400]);
    assert_eq!(waits.len() as u32, MAX_ATTEMPTS);
    assert_eq!(reason, "try 5 (after 5 attempts)");
}

#[test]
fn a_failed_try_is_given_back() {
    let mut tally = Tally { written: 0 };
    tally.landed(100);
    tally.landed(40);
    tally.give_back(40);
    assert_eq!(tally.written, 100);
    assert_eq!(tally.finish(100).unwrap(), 100);
    assert_eq!(
        tally.finish(140).unwrap_err().to_string(),
        "net_transfer: the supplier declared 140 bytes and delivered 100"
    );
}

#[test]
fn a_download_fails_as_a_transfer() {
    assert_eq!(failed("no".to_string()).to_string(), "net_transfer: no");
    assert_eq!(
        range_lost("boom").to_string(),
        "net_transfer: a range download panicked: boom"
    );
}

// ---------------------------------------------------------------------
// aria2c
// ---------------------------------------------------------------------

fn rendered() -> Vec<String> {
    argv(
        "https://example.test/w.safetensors",
        "/root/models",
        "w.safetensors",
        6800,
        "deadbeef",
        4242,
    )
}

#[test]
fn argv_splits_one_file_across_connections() {
    let argv = rendered();
    assert!(argv.contains(&format!("--split={SPLIT}")));
    assert!(argv.contains(&format!("--max-connection-per-server={SPLIT}")));
}

#[test]
fn argv_enables_rpc_on_the_chosen_port_behind_a_secret() {
    let argv = rendered();
    assert!(argv.contains(&"--enable-rpc".to_string()));
    assert!(argv.contains(&"--rpc-listen-port=6800".to_string()));
    assert!(argv.contains(&"--rpc-secret=deadbeef".to_string()));
    assert!(argv.contains(&"--rpc-listen-all=false".to_string()));
}

#[test]
fn argv_writes_the_destination_the_caller_asked_for() {
    let argv = rendered();
    assert!(argv.contains(&"--dir=/root/models".to_string()));
    assert!(argv.contains(&"--out=w.safetensors".to_string()));
    assert_eq!(argv.last().unwrap(), "https://example.test/w.safetensors");
}

#[test]
fn argv_resumes_rather_than_restarting() {
    assert!(rendered().contains(&"--continue=true".to_string()));
}

#[test]
fn argv_ends_with_the_process_that_started_it() {
    assert!(rendered().contains(&"--stop-with-process=4242".to_string()));
    assert!(rendered().contains(&"--min-split-size=1M".to_string()));
    assert_eq!(rendered().len(), 16);
}

#[test]
fn split_dst_separates_the_directory_from_the_name() {
    let (dir, name) = split_dst("/root/models/checkpoints/w.safetensors").unwrap();
    assert_eq!(dir, "/root/models/checkpoints");
    assert_eq!(name, "w.safetensors");
}

#[test]
fn split_dst_rejects_a_destination_that_names_no_file() {
    // A trailing slash is *not* one of these: `/root/models/` names
    // `models` in `/root`.
    assert!(split_dst("/").is_err());
    assert!(split_dst("").is_err());
    assert!(split_dst("..").is_err());
}

/// The parts of a path are those that the standard library tells.
#[test]
fn split_dst_reads_a_path_as_the_standard_library_does() {
    for dst in [
        "/root/models/",
        "/root//models",
        "w.bin",
        "./w.bin",
        ".",
        "./.",
        "/.",
        "a/.",
        "a/./b",
        "//a",
        "/./a",
        "a/..",
        "../a",
        "a/b//",
        "a/b/./.",
        "/a",
        ".hidden",
        "a.",
        "a/..b",
        "...",
    ] {
        let path = std::path::Path::new(dst);
        match (path.file_name(), split_dst(dst)) {
            (Some(want), Ok((dir, name))) => {
                assert_eq!(name, want.to_string_lossy(), "{dst}");
                assert_eq!(dir, path.parent().unwrap().to_string_lossy(), "{dst}");
            }
            (None, Err(error)) => assert_eq!(
                error.to_string(),
                format!("net_transfer: destination '{dst}' has no file name")
            ),
            (want, got) => panic!("{dst}: {want:?} against {got:?}"),
        }
    }
}

#[test]
fn byte_counts_are_read_from_aria2cs_decimal_strings() {
    assert_eq!(
        number(&serde_json::Value::from("3221225472")),
        Some(3221225472)
    );
    // A JSON number is what aria2c does not send, and reading one
    // anyway would mean guessing at a shape that never arrives.
    assert_eq!(number(&serde_json::Value::from(12)), None);
}

#[test]
fn the_daemon_is_asked_where_the_download_is() {
    let body = poll_body("deadbeef").expect("a question is spelled");
    let value: serde_json::Value = serde_json::from_str(&body).expect("it is JSON");
    assert_eq!(value["jsonrpc"], "2.0");
    assert_eq!(value["id"], "lm-provision");
    assert_eq!(value["method"], "aria2.tellActive");
    assert_eq!(value["params"][0], "token:deadbeef");
    assert_eq!(value["params"][1][0], "completedLength");
    assert_eq!(value["params"][1][1], "totalLength");
    assert_eq!(value.as_object().unwrap().len(), 4);
}

#[test]
fn secrets_differ_between_daemons() {
    assert_ne!(secret(1_000, 7, 0), secret(1_000, 7, 1));
    assert_eq!(secret(0x1f, 0xab, 16), "1fab10");
    assert_eq!(secret(0, 0, 0), "000");
    assert_eq!(
        secret(u128::MAX, u32::MAX, u64::MAX),
        format!("{:x}{:x}{:x}", u128::MAX, u32::MAX, u64::MAX)
    );
}

#[test]
fn a_size_of_zero_is_one_that_is_not_known() {
    assert_eq!(
        poll_reply(r#"{"result":[{"completedLength":"12","totalLength":"0"}]}"#),
        Some((12, None))
    );
    assert_eq!(
        poll_reply(r#"{"result":[{"completedLength":"12","totalLength":"400"}]}"#),
        Some((12, Some(400)))
    );
    assert_eq!(
        poll_reply(r#"{"result":[{"completedLength":"12"}]}"#),
        Some((12, None))
    );
}

#[test]
fn an_answer_that_says_nothing_is_no_report() {
    for reply in [
        "not json",
        "{}",
        r#"{"result":[]}"#,
        r#"{"result":{}}"#,
        r#"{"result":[{"totalLength":"3"}]}"#,
        r#"{"result":[{"completedLength":3}]}"#,
        "[]",
    ] {
        assert_eq!(poll_reply(reply), None, "{reply}");
    }
    assert_eq!(progress_in(&serde_json::Value::Null), None);
}

#[test]
fn a_report_under_way_is_not_the_last_one() {
    let report = progress_report(3, Some(9));
    assert_eq!((report.written, report.total, report.finished), (3, Some(9), false));
    let (report, outcome) = finished(9, "/m/w.bin");
    assert_eq!((report.written, report.total, report.finished), (9, Some(9), true));
    assert_eq!((outcome.bytes, outcome.dst.as_str()), (9, "/m/w.bin"));
}

#[test]
fn a_daemon_that_failed_says_how() {
    assert!(check_exit(Some(0)).is_ok());
    assert_eq!(
        check_exit(Some(3)).unwrap_err().to_string(),
        "net_transfer: 'aria2c' exited with status 3"
    );
    assert_eq!(
        check_exit(None).unwrap_err().to_string(),
        "net_transfer: 'aria2c' exited with status signal"
    );
    assert_eq!(
        spawn_failure(true, "x").to_string(),
        "net_transfer: 'aria2c' is not on PATH"
    );
    assert_eq!(
        spawn_failure(false, "x").to_string(),
        "net_transfer: spawn 'aria2c': x"
    );
}
