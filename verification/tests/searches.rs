use irc::proto::FormattedStringExt;
use regex::Regex;
use xdcc_agent::search::{Search, SearchResult, SEARCH_PATTERN};

#[test]
fn search_result1() {
    let input = "\u{3}00,01\u{2}058\u{3}15\u{2})\u{3}10  10x\u{3}04\u{2} |\u{3}10\u{2} 7.5G\u{3}04\u{2} |\u{3}10\u{2} Something.Something-I-dont-really-know.2022.German.DTS.DL.720p.BluRay.x264-JJ.mkv\u{3}04\u{2} |\u{3}09\u{2} /MSG [AA]-DEMO|EU|S|DOESNOTEXIST XDCC SEND 90 \u{3}04\u{2}|\u{2}\u{3}00 Used: 11.53% 29/15 avg: 1.71TiB/s (113328s ago)\u{3}04 ".strip_formatting();

    let pattern = Regex::new(SEARCH_PATTERN).unwrap();
    let capture = pattern.captures(&input).unwrap();
    itertools::assert_equal(
        capture.iter().skip(1).flatten().map(|i| i.as_str()),
        [
            "Something.Something-I-dont-really-know.2022.German.DTS.DL.720p.BluRay.x264-JJ.mkv",
            "[AA]-DEMO|EU|S|DOESNOTEXIST",
            "XDCC SEND 90",
        ],
    );
    assert!(capture.name("filename").is_some());
    assert!(capture.name("nick").is_some());
    assert!(capture.name("command").is_some());

    let result = SearchResult::from_notice("irc.example.org", &input).unwrap();
    assert_eq!(
        result.file_name,
        "Something.Something-I-dont-really-know.2022.German.DTS.DL.720p.BluRay.x264-JJ.mkv"
    );
    assert_eq!(result.nick, "[AA]-DEMO|EU|S|DOESNOTEXIST");
    assert_eq!(result.command, "XDCC SEND 90");
}

#[test]
fn search_result2() {
    let input = "\u{3}03(\u{3} 0x \u{3}03[\u{3}001.7G\u{3}03]\u{2} I-cant-believe-this.S01E07.1080p.HEVC.x265-noooaa.mkv \u{2}) (\u{3} /msg IDONOTCAREWHATYOURNAMEIS xdcc send #13384 \u{3}03) (\u{3} Used:\u{3}03 1/10 \u{3}Avg: \u{3}991034.62MB/s )".strip_formatting();
    println!("{}", input);

    let pattern = Regex::new(SEARCH_PATTERN).unwrap();
    let capture = pattern.captures(&input).unwrap();
    itertools::assert_equal(
        capture.iter().skip(1).flatten().map(|i| i.as_str()),
        [
            "I-cant-believe-this.S01E07.1080p.HEVC.x265-noooaa.mkv",
            "IDONOTCAREWHATYOURNAMEIS",
            "xdcc send #13384",
        ],
    );
    assert!(capture.name("filename").is_some());
    assert!(capture.name("nick").is_some());
    assert!(capture.name("command").is_some());

    let result = SearchResult::from_notice("irc.example.org", &input).unwrap();
    assert_eq!(result.server, "irc.example.org");
    assert_eq!(result.file_name, "I-cant-believe-this.S01E07.1080p.HEVC.x265-noooaa.mkv");
    assert_eq!(result.nick, "IDONOTCAREWHATYOURNAMEIS");
    assert_eq!(result.command, "xdcc send #13384");
}

#[test]
fn notice_is_stripped_before_it_is_read() {
    let raw = "\u{3}04\u{2}file.mkv\u{2} \u{3}09| /msg \u{2}Bot\u{2} xdcc send #7";
    let result = SearchResult::from_notice("net", raw).unwrap();
    assert_eq!(result.file_name, "file.mkv");
    assert_eq!(result.nick, "Bot");
    assert_eq!(result.command, "xdcc send #7");
}

#[test]
fn notice_that_lists_nothing() {
    assert!(SearchResult::from_notice("net", "welcome to the channel").is_none());
    assert!(SearchResult::from_notice("net", "").is_none());
    assert!(SearchResult::from_notice("net", "file.mkv | /msg Bot xdcc get #7").is_none());
}

#[test]
fn result_needs_three_groups() {
    let whole = Some("f n c".to_string());
    let all = vec![whole.clone(), Some("f".to_string()), Some("n".to_string()), Some("c".to_string())];
    let result = SearchResult::from_groups("net", &all).unwrap();
    assert_eq!(result.server, "net");
    assert_eq!(result.file_name, "f");
    assert_eq!(result.nick, "n");
    assert_eq!(result.command, "c");
    let two = vec![whole.clone(), Some("f".to_string()), Some("n".to_string())];
    assert!(SearchResult::from_groups("net", &two).is_none());
    let gap = vec![whole, Some("f".to_string()), None, Some("c".to_string())];
    assert!(SearchResult::from_groups("net", &gap).is_none());
}

#[test]
fn search_keeps_results_in_order() {
    let mut search = Search::new();
    assert!(search.results().is_empty());
    search.record(SearchResult::from_notice("a", "one.mkv x /msg Bot xdcc send #1").unwrap());
    search.record(SearchResult::from_notice("b", "two.mkv x /msg Bot xdcc send #2").unwrap());
    assert_eq!(search.results().len(), 2);
    assert_eq!(search.results()[0].file_name, "one.mkv");
    assert_eq!(search.results()[1].file_name, "two.mkv");
    assert_eq!(search.results()[1].server, "b");
    search.clear();
    assert!(search.results().is_empty());
}
