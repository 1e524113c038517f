use modelmod::mod_stats::{
    stat_key, updated_stats_tail, ModMsg, ModStats, StatEntry, DEF_IDLE_NANOS, DEF_UPD_INTERVAL_NANOS,
};

const SEC: u128 = 1_000_000_000;
const TAIL: usize = 10000;

/// Applies a batch of messages to an in-memory stats file the way the log
/// thread applies them to the file on disk: only the last 10000 bytes are
/// examined and rewritten.
fn process(file: &mut Vec<u8>, msgs: &[ModMsg], time_text: &dyn Fn(i128) -> String) {
    if msgs.is_empty() {
        return;
    }
    let skipped = if file.len() > TAIL { file.len() - TAIL } else { 0 };
    let buf: Vec<u8> = file[skipped..].to_vec();
    let mut entries = Vec::new();
    for m in msgs {
        if let ModMsg::ModActive(name, start, total) = m {
            entries.push(StatEntry { key: stat_key(&time_text(*start), name), total: *total });
        }
    }
    let (offset, tail) = updated_stats_tail(&buf, &entries);
    file.truncate(skipped + offset);
    file.extend_from_slice(&tail);
}

fn tt(t: i128) -> String {
    format!("T{}", t)
}

fn text(file: &Vec<u8>) -> String {
    String::from_utf8(file.clone()).unwrap()
}

fn active(name: &str, start: i128, secs: u128) -> ModMsg {
    ModMsg::ModActive(name.to_owned(), start, secs * SEC)
}

#[test]
fn test_process_messages_1() {
    let mut f = Vec::new();
    let foo = 1;
    process(&mut f, &[active("foo", foo, 5)], &tt);
    assert_eq!(text(&f), "T1: 'foo' 5 secs\n");
    process(&mut f, &[active("foo", foo, 10)], &tt);
    assert_eq!(text(&f), "T1: 'foo' 10 secs\n");
    let bar = 2;
    process(&mut f, &[active("bar", bar, 5)], &tt);
    assert_eq!(text(&f).lines().collect::<Vec<&str>>(), vec!["T1: 'foo' 10 secs", "T2: 'bar' 5 secs"]);
    process(&mut f, &[active("foo", foo, 15)], &tt);
    assert_eq!(text(&f).lines().collect::<Vec<&str>>(), vec!["T1: 'foo' 15 secs", "T2: 'bar' 5 secs"]);
    let crap = 3;
    process(&mut f, &[active("crap", crap, 2)], &tt);
    assert_eq!(
        text(&f).lines().collect::<Vec<&str>>(),
        vec!["T1: 'foo' 15 secs", "T2: 'bar' 5 secs", "T3: 'crap' 2 secs"]
    );
    process(&mut f, &[active("bar", bar, 6), active("crap", crap, 5)], &tt);
    assert_eq!(
        text(&f).lines().collect::<Vec<&str>>(),
        vec!["T1: 'foo' 15 secs", "T2: 'bar' 6 secs", "T3: 'crap' 5 secs"]
    );
}

fn filler(s: &str, total_bytes_min: usize) -> String {
    let per_line = 10;
    let n = total_bytes_min / s.len();
    let mut out = String::new();
    for _ in 0..(n / per_line) {
        for _ in 0..per_line {
            out.push_str(s);
        }
        out.push_str("\n");
    }
    out
}

#[test]
fn test_process_messages_2() {
    let mut f = Vec::new();
    let foo = 1;
    process(&mut f, &[active("foo", foo, 5)], &tt);
    let crapstr = filler("crap", 10000);
    f.extend_from_slice(crapstr.as_bytes());
    let bar = 2;
    process(&mut f, &[active("bar", bar, 10)], &tt);
    let mut ex = String::new();
    ex.push_str("T1: 'foo' 5 secs\n");
    ex.push_str(&crapstr);
    ex.push_str("T2: 'bar' 10 secs\n");
    assert!(text(&f) == ex);

    process(&mut f, &[active("bar", bar, 15)], &tt);
    let mut ex = String::new();
    ex.push_str("T1: 'foo' 5 secs\n");
    ex.push_str(&crapstr);
    ex.push_str("T2: 'bar' 15 secs\n");
    assert!(text(&f) == ex);

    // foo's line is before the examined window, so it gets a new line
    process(&mut f, &[active("foo", foo, 5)], &tt);
    let mut ex = String::new();
    ex.push_str("T1: 'foo' 5 secs\n");
    ex.push_str(&crapstr);
    ex.push_str("T2: 'bar' 15 secs\n");
    ex.push_str("T1: 'foo' 5 secs\n");
    assert!(text(&f) == ex);

    let dungstr = filler("dung", 2000);
    f.extend_from_slice(dungstr.as_bytes());
    let cat = 3;
    process(&mut f, &[active("foo", foo, 7), active("bar", bar, 17), active("cat", cat, 25)], &tt);
    let mut ex = String::new();
    ex.push_str("T1: 'foo' 5 secs\n");
    ex.push_str(&crapstr);
    ex.push_str("T2: 'bar' 17 secs\n");
    ex.push_str("T1: 'foo' 7 secs\n");
    ex.push_str(&dungstr);
    ex.push_str("T3: 'cat' 25 secs\n");
    assert!(text(&f) == ex);
}

#[test]
fn test_process_messages_3() {
    let mut f = Vec::new();
    process(&mut f, &[active("foo", 1, 10)], &tt);
    process(&mut f, &[active("bar", 1, 5)], &tt);
    assert_eq!(text(&f).lines().collect::<Vec<&str>>(), vec!["T1: 'foo' 10 secs", "T1: 'bar' 5 secs"]);
    process(&mut f, &[active("foo", 1, 59)], &tt);
    assert_eq!(text(&f).lines().collect::<Vec<&str>>(), vec!["T1: 'foo' 59 secs", "T1: 'bar' 5 secs"]);
    process(&mut f, &[active("foo", 1, 60)], &tt);
    assert_eq!(text(&f).lines().collect::<Vec<&str>>(), vec!["T1: 'foo' 1m 0s", "T1: 'bar' 5 secs"]);
}

#[test]
fn duplicate_stretches_in_a_batch_are_summed() {
    let buf: Vec<u8> = Vec::new();
    let key = stat_key("T9", "dup");
    let entries = vec![
        StatEntry { key: key.clone(), total: 30 * SEC },
        StatEntry { key: key.clone(), total: 45 * SEC },
    ];
    let (offset, tail) = updated_stats_tail(&buf, &entries);
    assert_eq!(offset, 0);
    assert_eq!(String::from_utf8(tail).unwrap(), "T9: 'dup' 1m 15s\n");
}

#[test]
fn lines_before_the_first_key_are_kept() {
    let buf = b"header\nT1: 'a' 1 secs\r\nother\n".to_vec();
    let entries = vec![StatEntry { key: stat_key("T1", "a"), total: 2 * SEC }];
    let (offset, tail) = updated_stats_tail(&buf, &entries);
    assert_eq!(offset, 7);
    assert_eq!(String::from_utf8(tail).unwrap(), "T1: 'a' 2 secs\nother\n");
}

#[test]
fn stat_key_format() {
    assert_eq!(stat_key("12:00", "mymod"), b"12:00: 'mymod'".to_vec());
}

fn names(v: &[&str]) -> Vec<String> {
    v.iter().map(|s| s.to_string()).collect()
}

#[test]
fn test_mod_stats_update() {
    let mut t: i128 = 1_000 * SEC as i128;
    let mut ms = ModStats::new(t);
    assert_eq!(ms.file_name(), "mod_stats.txt");
    ms.set_filename("__test_mod_stats.txt");
    assert_eq!(ms.file_name(), "__test_mod_stats.txt");

    ms.set_update_interval(0);
    assert_eq!(ms.update(t, &names(&[])).counts, Some((0, 0)));
    ms.set_update_interval(5_000_000);
    assert_eq!(ms.update(t + 1_000_000, &names(&[])).counts, None);
    t += 6_000_000;
    assert_eq!(ms.update(t, &names(&[])).counts, Some((0, 0)));
    ms.set_update_interval(0);

    // one mod becomes active
    let r = ms.update(t, &names(&["mod_100_200_2"]));
    assert_eq!(r.counts, Some((1, 1)));
    match &r.msgs[0] {
        ModMsg::NewModActive(n, s) => {
            assert_eq!(n, "mod_100_200_2");
            assert_eq!(*s, t);
        },
        _ => panic!("expected a new stretch"),
    }
    t += 2_000_000;
    let r = ms.update(t, &names(&["mod_100_200_2"]));
    assert_eq!(r.counts, Some((0, 1)));
    // nobody active
    t += 2_000_000;
    assert_eq!(ms.update(t, &names(&[])).counts, Some((0, 0)));
    // comes back within the idle limit: same stretch
    assert_eq!(ms.update(t, &names(&["mod_100_200_2"])).counts, Some((0, 1)));
    // comes back after the idle limit: new stretch
    ms.set_idle_limit(5_000_000);
    t += 6_000_000;
    assert_eq!(ms.update(t, &names(&["mod_100_200_2"])).counts, Some((1, 1)));
    assert_eq!(ms.update(t, &names(&["mod_100_200_2", "mod_100_200_1"])).counts, Some((1, 2)));
    assert_eq!(
        ms.update(t, &names(&["mod_100_200_2", "mod_100_200_1", "mod_50_150"])).counts,
        Some((1, 3))
    );
    assert_eq!(
        ms.update(t, &names(&["mod_100_200_2", "mod_100_200_1", "mod_50_150"])).counts,
        Some((0, 3))
    );

    ms.reset(t);
    assert_eq!(ms.file_name(), "mod_stats.txt");
}

#[test]
fn credited_time_is_capped_at_twice_the_interval() {
    let t0: i128 = 0;
    let mut ms = ModStats::new(t0);
    let interval = DEF_UPD_INTERVAL_NANOS;
    // first sighting after one interval starts a stretch
    let r = ms.update(interval as i128, &names(&["m"]));
    assert_eq!(r.counts, Some((1, 1)));
    // ten intervals later (within the idle limit): credited 2 intervals
    let t = 11 * interval as i128;
    assert!((10 * interval) < DEF_IDLE_NANOS);
    let r = ms.update(t, &names(&["m"]));
    match &r.msgs[0] {
        ModMsg::ModActive(n, start, total) => {
            assert_eq!(n, "m");
            assert_eq!(*start, interval as i128);
            assert_eq!(*total, 2 * interval);
        },
        _ => panic!("expected a continued stretch"),
    }
}

#[test]
fn file_name_is_chosen_once() {
    let mut ms = ModStats::new(0);
    ms.choose_file_name(None, "game");
    assert_eq!(ms.file_name(), "mod_stats.txt");
    ms.choose_file_name(Some("C:\\MM"), "");
    assert_eq!(ms.file_name(), "mod_stats.txt");
    ms.choose_file_name(Some("C:\\MM"), "game");
    assert_eq!(ms.file_name(), "C:\\MM\\Logs\\modstats.game.log");
    ms.choose_file_name(Some("D:\\Other"), "x");
    assert_eq!(ms.file_name(), "C:\\MM\\Logs\\modstats.game.log");
}

#[test]
fn invalid_utf8_after_the_first_key_is_replaced() {
    let mut buf = b"T1: 'a' 1 secs\n".to_vec();
    buf.extend_from_slice(&[b'x', 0xff, b'y', b'\n']);
    let entries = vec![StatEntry { key: stat_key("T1", "a"), total: 3 * SEC }];
    let (offset, tail) = updated_stats_tail(&buf, &entries);
    assert_eq!(offset, 0);
    assert_eq!(String::from_utf8(tail).unwrap(), "T1: 'a' 3 secs\nx\u{FFFD}y\n");
}
