use sparkline_monitor::metrics::ParseError;
use sparkline_monitor::sys_info::MemInfo;

#[test]
fn memory_report_updates_all_three_figures() {
    let mut info = MemInfo { mem_total: 0, mem_free: 0, mem_available: 0 };
    let contents = "MemTotal:       16384 kB\nMemFree:         1024 kB\nMemAvailable:    8192 kB\nBuffers:          512 kB\nActive(anon):     300 kB\nHugePages_Total:       0\n";
    assert_eq!(info.update_memory_info(contents), Ok(()));
    assert_eq!(info, MemInfo { mem_total: 16384, mem_free: 1024, mem_available: 8192 });
}

#[test]
fn figures_not_reported_stay_as_they_were() {
    let mut info = MemInfo { mem_total: 1, mem_free: 2, mem_available: 3 };
    assert_eq!(info.update_memory_info("MemFree: 50 kB\n"), Ok(()));
    assert_eq!(info, MemInfo { mem_total: 1, mem_free: 50, mem_available: 3 });
    assert_eq!(info.update_memory_info(""), Ok(()));
    assert_eq!(info, MemInfo { mem_total: 1, mem_free: 50, mem_available: 3 });
}

#[test]
fn unreadable_memory_figure_fails_and_changes_nothing() {
    let mut info = MemInfo { mem_total: 1, mem_free: 2, mem_available: 3 };
    let outcome = info.update_memory_info("MemTotal: 9 kB\nMemFree: unknown\nMemAvailable: 7 kB\n");
    assert_eq!(outcome, Err(ParseError::MalformedValue));
    assert_eq!(info, MemInfo { mem_total: 1, mem_free: 2, mem_available: 3 });
}

#[test]
fn unreadable_other_field_is_ignored() {
    let mut info = MemInfo { mem_total: 1, mem_free: 2, mem_available: 3 };
    assert_eq!(info.update_memory_info("Note: none\nMemTotal: 9 kB\ngarbage line\n"), Ok(()));
    assert_eq!(info, MemInfo { mem_total: 9, mem_free: 2, mem_available: 3 });
}

#[test]
fn repeated_memory_figure_takes_the_last() {
    let mut info = MemInfo { mem_total: 0, mem_free: 0, mem_available: 0 };
    assert_eq!(info.update_memory_info("MemTotal: 1 kB\nMemTotal: 2 kB\n"), Ok(()));
    assert_eq!(info.mem_total, 2);
}
