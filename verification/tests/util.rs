use std::cell::Cell;
use std::rc::Rc;
use modelmod::util::{log_limit, set_log_file_path, LimResult, LogLimiter, ReleaseDrop, ReleaseOnDrop, LOG_LIMIT};
use modelmod::dnclr::{get_run_context, RUN_CONTEXT_D3D9};

struct Foo {
    released: Rc<Cell<bool>>,
}

impl ReleaseDrop for Foo {
    #[allow(non_snake_case)]
    fn OnDrop(&mut self) {
        self.released.set(true);
    }
}

#[test]
fn test_release_on_drop() {
    let released = Rc::new(Cell::new(false));
    let rod = ReleaseOnDrop::new(Foo { released: released.clone() });
    assert_eq!(released.get(), false);
    rod.release();
    assert_eq!(released.get(), true);

    let released = Rc::new(Cell::new(false));
    {
        let rod = ReleaseOnDrop::new(Foo { released: released.clone() });
        assert_eq!(released.get(), false);
        rod.release();
    }
    assert_eq!(released.get(), true);

    let released = Rc::new(Cell::new(false));
    {
        let arod;
        {
            arod = vec![ReleaseOnDrop::new(Foo { released: released.clone() })];
            assert_eq!(released.get(), false);
        }
        for rod in arod {
            rod.release();
        }
    }
    assert_eq!(released.get(), true);
}

#[test]
fn test_init_clr() {
    assert_eq!(get_run_context(), RUN_CONTEXT_D3D9);
}

#[test]
fn log_limit_logs_first_25_then_notice_then_nothing() {
    let mut count: Option<u32> = None;
    let mut logged = 0;
    let mut fyi = 0;
    for _ in 0..30 {
        let (r, c) = log_limit("spam", count);
        count = c;
        match r {
            LimResult::Log => logged += 1,
            LimResult::DontLogAndFYI(m) => {
                fyi += 1;
                assert_eq!(m, "performance warning: message 'spam' has been logged 25 times; it won't be repeated");
            },
            LimResult::DontLog => {},
        }
    }
    assert_eq!(logged, 25);
    assert_eq!(fyi, 1);
    assert_eq!(count, Some(LOG_LIMIT + 1));
}

#[test]
fn set_log_file_path_concatenates() {
    let mut s = String::from("old");
    set_log_file_path(&mut s, "C:\\logs\\", "ModelMod.log");
    assert_eq!(s, "C:\\logs\\ModelMod.log");
}

#[test]
fn as_mut_reaches_the_guarded_value() {
    let released = Rc::new(Cell::new(false));
    let mut rod = ReleaseOnDrop::new(Foo { released: released.clone() });
    rod.as_mut().OnDrop();
    assert!(released.get());
}

#[test]
fn test_logging_and_limit() {
    let mut limiter = LogLimiter::new();
    let mut lines: Vec<String> = Vec::new();
    let mut log = |limiter: &mut LogLimiter, msg: &str| match limiter.check(msg) {
        LimResult::Log => lines.push(msg.to_string()),
        LimResult::DontLogAndFYI(fyi) => lines.push(fyi),
        LimResult::DontLog => {},
    };
    for _i in 0..30 {
        log(&mut limiter, "spam");
        log(&mut limiter, "spam");
        log(&mut limiter, "spam");
        log(&mut limiter, "humbug");
    }
    let spam = lines.iter().filter(|l| l.contains("spam")).count();
    let humbug = lines.iter().filter(|l| l.contains("humbug")).count();
    assert_eq!(spam, 26);
    assert_eq!(humbug, 26);

    let mut linei = lines.iter();
    for i in 0..8 {
        assert_eq!(linei.next().unwrap(), "spam", "line {}", i);
        assert_eq!(linei.next().unwrap(), "spam", "line {}", i);
        assert_eq!(linei.next().unwrap(), "spam", "line {}", i);
        assert_eq!(linei.next().unwrap(), "humbug", "line {}", i);
    }
    assert_eq!(linei.next().unwrap(), "spam");
    let fyi = "performance warning: message 'spam' has been logged 25 times; it won't be repeated";
    assert_eq!(linei.next().unwrap(), fyi);
    for i in 0..17 {
        assert_eq!(linei.next().unwrap(), "humbug", "{}", i);
    }
    let fyi = "performance warning: message 'humbug' has been logged 25 times; it won't be repeated";
    assert_eq!(linei.next().unwrap(), fyi);
}
