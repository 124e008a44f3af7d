use rust_top::data::cpu::CpuInfo;
use rust_top::data::info::SystemInfo;

const REPORT: &str = "Architecture:             x86_64\n  CPU op-mode(s):         32-bit, 64-bit\nL1d cache:                384 KiB (8 instances)\nL2 cache:                 8 MiB (8 instances)\nL3 cache:                 32 MiB (1 instance)\nNUMA node(s):             1\n";

#[test]
fn l3_from_lscpu_report() {
    assert_eq!(CpuInfo::lscpu_l3_cache(REPORT), Some("32 MiB".to_string()));
    assert_eq!(SystemInfo::lscpu_l3_cache(REPORT), Some("32 MiB".to_string()));
}

#[test]
fn l3_missing() {
    assert_eq!(CpuInfo::lscpu_l3_cache("L2 cache: 8 MiB\n"), None);
    assert_eq!(SystemInfo::lscpu_l3_cache("L2 cache: 8 MiB\n"), None);
    assert_eq!(CpuInfo::lscpu_l3_cache(""), None);
    assert_eq!(SystemInfo::lscpu_l3_cache(""), None);
}

#[test]
fn l3_first_line_empty() {
    let s = "L3 cache:\t \r\nL3 cache: 8 MiB\n";
    // The first matching line decides for `CpuInfo`.
    assert_eq!(CpuInfo::lscpu_l3_cache(s), None);
    // `SystemInfo` goes on to the next line with a size.
    assert_eq!(SystemInfo::lscpu_l3_cache(s), Some("8 MiB".to_string()));
}

#[test]
fn l3_single_word_and_colons() {
    assert_eq!(CpuInfo::lscpu_l3_cache("L3 cache: 16M"), Some("16M".to_string()));
    assert_eq!(CpuInfo::lscpu_l3_cache("L3 cache: 16 MiB: x"), Some("16 MiB:".to_string()));
    assert_eq!(SystemInfo::lscpu_l3_cache("L3 cache: 16 MiB: x"), Some("16 MiB".to_string()));
    assert_eq!(CpuInfo::lscpu_l3_cache(" L3 cache: 1 MiB"), None);
    assert_eq!(CpuInfo::lscpu_l3_cache("L3 cache:\u{a0}2\u{3000}MiB\u{85}z"), Some("2 MiB".to_string()));
}

#[test]
fn l3_agrees_with_std_splitting() {
    let cases = [
        REPORT,
        "x\r\nL3 cache:   4 MiB (2 instances)\r\n",
        "L3 cache:\n",
        "L3 cache:   a   b   c",
        "\n\n\nL3 cache:\u{2003}one\u{2028}two three\n",
    ];
    for s in cases.iter() {
        let expected = s
            .lines()
            .find_map(|line| line.strip_prefix("L3 cache:"))
            .map(|rest| rest.trim().split_whitespace().take(2).collect::<Vec<_>>().join(" "))
            .filter(|s| !s.is_empty());
        assert_eq!(CpuInfo::lscpu_l3_cache(s), expected);
        let mut other = None;
        for line in s.lines() {
            if line.starts_with("L3 cache:") {
                let size = line.split(':').nth(1).unwrap().trim().split_whitespace().take(2).collect::<Vec<_>>().join(" ");
                if !size.is_empty() {
                    other = Some(size);
                    break;
                }
            }
        }
        assert_eq!(SystemInfo::lscpu_l3_cache(s), other);
    }
}

#[test]
fn cache_entries_in_order() {
    let m = CpuInfo::cache_entries(Some(32768), Some(524288), Some("32 MiB".to_string())).unwrap();
    assert_eq!(
        m,
        vec![
            ("L1".to_string(), "32 KB".to_string()),
            ("L2".to_string(), "512 KB".to_string()),
            ("L3".to_string(), "32 MiB".to_string())
        ]
    );
    assert!(SystemInfo::cache_entries(None, None, None).is_none());
}

#[test]
fn machine_cache_keeps_given_l3() {
    let m = CpuInfo::display_cpu_cache(Some("9 MiB".to_string())).unwrap();
    assert_eq!(m.last().unwrap(), &("L3".to_string(), "9 MiB".to_string()));
}
