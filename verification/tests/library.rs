use llm_cli_llama::chat::{
    augment_message, batch_positions, chat_input, line_text, ChatInput, ChatSession, FetchOutcome,
    FetchResult,
};
use llm_cli_llama::choice::{menu_choice, parse_usize_chars, preset_choice, ChoiceError};
use llm_cli_llama::cli::{resolve_model_source, ModelSource, SourceError};
use llm_cli_llama::listing::{session_created_at, session_labels, sessions_newest_first, text_lt};
use llm_cli_llama::page::{
    clip_page_text, collapse_white_space, element_text_of, html_page_text, page_text_from_blocks,
};
use llm_cli_llama::preset::{list_models_text, name_group, preset_menu_text, Group, Preset};
use llm_cli_llama::session::{
    auto_session_name, count_non_system, safe_session_name, session_file_name,
    session_review_text, session_slug, timestamp_key, SavedMessage, SavedSession,
};
use llm_cli_llama::text::{
    char_utf8_width, chars_of, decimal_chars, is_blank, string_from_chars, text_eq, trimmed_chars,
};
use llm_cli_llama::timestamp::{chrono_now, format_timestamp};
use llm_cli_llama::generation::Generation;
use llm_cli_llama::urls::extract_urls;

fn msg(role: &str, content: &str) -> SavedMessage {
    SavedMessage { role: role.to_string(), content: content.to_string() }
}

fn entry(name: &str, ts: &str) -> (String, String) {
    (name.to_string(), ts.to_string())
}

fn is_timestamp_shape(t: &str) -> bool {
    let c: Vec<char> = t.chars().collect();
    c.len() == 16
        && c[4] == '-'
        && c[7] == '-'
        && c[10] == ' '
        && c[13] == ':'
        && c.iter().enumerate().all(|(i, ch)| [4, 7, 10, 13].contains(&i) || ch.is_ascii_digit())
}

// ---------------------------------------------------------------- timestamps

#[test]
fn timestamp_of_epoch() {
    assert_eq!(format_timestamp(0), "1970-01-01 00:00");
}

#[test]
fn timestamp_counts_years_of_365_days() {
    assert_eq!(format_timestamp(365 * 86400 + 5 * 3600 + 7 * 60 + 59), "1971-01-01 05:07");
}

#[test]
fn timestamp_december_holds_the_last_days_of_the_year() {
    assert_eq!(format_timestamp(330 * 86400), "1970-12-01 00:00");
    assert_eq!(format_timestamp(359 * 86400), "1970-12-30 00:00");
    assert_eq!(format_timestamp(360 * 86400), "1970-12-31 00:00");
    assert_eq!(format_timestamp(364 * 86400 + 23 * 3600 + 59 * 60), "1970-12-35 23:59");
}

#[test]
fn timestamps_sort_in_time_order() {
    let mut last = format_timestamp(0);
    let mut secs: u64 = 0;
    while secs < 3 * 365 * 86400 {
        secs += 1800;
        let next = format_timestamp(secs);
        assert!(last <= next, "{last} > {next}");
        last = next;
    }
    assert!(format_timestamp(31017600) < format_timestamp(31104000));
}

#[test]
fn timestamp_of_thirty_day_months() {
    assert_eq!(format_timestamp(45 * 86400 + 23 * 3600 + 59 * 60), "1970-02-16 23:59");
}

#[test]
fn timestamp_year_grows_past_four_digits() {
    assert_eq!(format_timestamp(u64::MAX), "584942419325-01-27 07:00");
}

#[test]
fn chrono_now_has_timestamp_shape() {
    let now = chrono_now();
    assert!(is_timestamp_shape(&now), "{now}");
    assert!(now.as_str() >= "2020");
}

// ---------------------------------------------------------------- presets

#[test]
fn preset_catalogue_order_and_names() {
    let all = Preset::all();
    assert_eq!(all.len(), 12);
    let names: Vec<&str> = all.iter().map(|p| p.name()).collect();
    assert_eq!(
        names,
        vec![
            "llama32-1b",
            "llama32-3b",
            "llama31-8b",
            "mistral-7b",
            "qwen25-7b",
            "gemma3-1b",
            "gemma3-4b",
            "swallow-8b",
            "elyza-jp-8b",
            "calm3-22b",
            "gemma2-jpn-2b",
            "gemma3-12b"
        ]
    );
}

#[test]
fn preset_download_details() {
    assert_eq!(Preset::Llama318b.repo_id(), "bartowski/Meta-Llama-3.1-8B-Instruct-GGUF");
    assert_eq!(Preset::Llama318b.filename(), "Meta-Llama-3.1-8B-Instruct-Q4_K_M.gguf");
    assert_eq!(Preset::Calm322b.size(), "~13 GB");
    assert_eq!(Preset::Swallow8b.repo_id(), "mmnga/tokyotech-llm-Llama-3.1-Swallow-8B-Instruct-v0.3-gguf");
    assert_eq!(
        Preset::Swallow8b.filename(),
        "tokyotech-llm-Llama-3.1-Swallow-8B-Instruct-v0.3-q4_K_M.gguf"
    );
    assert!(Preset::Gemma2Jpn2b.description().starts_with("[JP] Google公式 Gemma 2"));
    assert_eq!(Preset::Gemma31b.size(), "~0.8 GB");
}

#[test]
fn japanese_group_is_exactly_the_jp_descriptions() {
    for p in Preset::all() {
        let jp = p.group() == Group::Japanese;
        assert_eq!(jp, p.description().starts_with("[JP]"), "{:?}", p);
    }
    let jp: Vec<Preset> = Preset::all().into_iter().filter(|p| p.group() == Group::Japanese).collect();
    assert_eq!(
        jp,
        vec![Preset::Swallow8b, Preset::ElyzaJp8b, Preset::Calm322b, Preset::Gemma2Jpn2b, Preset::Gemma312b]
    );
}

#[test]
fn name_group_by_prefix() {
    assert_eq!(name_group("gemma3-12b"), Group::Japanese);
    assert_eq!(name_group("gemma3-1b"), Group::General);
    assert_eq!(name_group("calm"), Group::Japanese);
    assert_eq!(name_group("cal"), Group::General);
    assert_eq!(name_group(""), Group::General);
}

#[test]
fn list_models_table() {
    let text = list_models_text();
    let lines: Vec<&str> = text.split('\n').collect();
    assert_eq!(lines[0], "PRESET         SIZE      DESCRIPTION");
    assert_eq!(lines[1], "-".repeat(80));
    assert_eq!(
        lines[2],
        "llama32-1b     ~0.7 GB   Meta Llama 3.2 超軽量モデル。プロトタイプ・動作確認やメモリ制約の場面に最適。"
    );
    assert_eq!(lines[8], format!("{:<14} {:<9} {}", "gemma3-4b", "~2.5 GB", Preset::Gemma34b.description()));
    assert_eq!(lines[9], "  --- 日本語特化 ---");
    assert!(lines[10].starts_with("swallow-8b     ~4.9 GB   [JP]"));
    assert_eq!(lines.len(), 2 + 1 + 12 + 1);
    assert_eq!(lines[15], "");
}

#[test]
fn preset_menu_lists_numbered_entries() {
    let text = preset_menu_text();
    assert!(text.starts_with("\nAvailable models:\nNo.  PRESET         SIZE      DESCRIPTION\n"));
    assert!(text.contains(&format!("\n{}\n", "-".repeat(70))));
    assert!(text.contains("\n[ 1] llama32-1b     ~0.7 GB   Meta Llama 3.2"));
    assert!(text.contains("\n[12] gemma3-12b     ~7.0 GB   [JP] Google Gemma 3 12B"));
    assert!(text.contains("\n  --- 日本語特化 ---\n[ 8] swallow-8b"));
    assert!(text.ends_with("\nSelect model [1-12]: "));
}

// ---------------------------------------------------------------- menu answers

#[test]
fn preset_choice_reads_a_number() {
    assert_eq!(preset_choice("3\n"), Ok(Preset::Llama318b));
    assert_eq!(preset_choice("  +12 \t"), Ok(Preset::Gemma312b));
    assert_eq!(preset_choice("1"), Ok(Preset::Llama321b));
}

#[test]
fn preset_choice_out_of_range() {
    assert_eq!(preset_choice("0"), Err(ChoiceError::OutOfRange(0)));
    assert_eq!(preset_choice("13"), Err(ChoiceError::OutOfRange(13)));
}

#[test]
fn preset_choice_not_a_number() {
    assert_eq!(preset_choice("abc"), Err(ChoiceError::NotANumber));
    assert_eq!(preset_choice(""), Err(ChoiceError::NotANumber));
    assert_eq!(preset_choice("-1"), Err(ChoiceError::NotANumber));
    assert_eq!(preset_choice("+"), Err(ChoiceError::NotANumber));
    assert_eq!(preset_choice("1 2"), Err(ChoiceError::NotANumber));
    assert_eq!(preset_choice("999999999999999999999999"), Err(ChoiceError::NotANumber));
}

#[test]
fn menu_choice_trims_unicode_space() {
    assert_eq!(menu_choice("\u{3000}2\u{3000}", 5), Ok(2));
    assert_eq!(menu_choice("6", 5), Err(ChoiceError::OutOfRange(6)));
}

#[test]
fn parse_usize_matches_std() {
    for s in ["0", "+7", "007", "18446744073709551615", "18446744073709551616", "", "+", "1_0", "١"] {
        let v: Vec<char> = s.chars().collect();
        assert_eq!(parse_usize_chars(&v), s.parse::<usize>().ok(), "{s}");
    }
}

// ---------------------------------------------------------------- urls

#[test]
fn extract_urls_finds_https_then_http() {
    assert_eq!(
        extract_urls("see https://example.com/a, and http://foo.org."),
        vec!["https://example.com/a".to_string(), "http://foo.org".to_string()]
    );
}

#[test]
fn extract_urls_keeps_text_order_of_http_and_https() {
    assert_eq!(
        extract_urls("see http://a.com and https://b.com"),
        vec!["http://a.com".to_string(), "https://b.com".to_string()]
    );
    assert_eq!(
        extract_urls("https://a.com/?u=http://b.org http://c.net"),
        vec!["https://a.com/?u=http://b.org".to_string(), "http://c.net".to_string()]
    );
}

#[test]
fn extract_urls_drops_repeats_in_a_row_only() {
    assert_eq!(
        extract_urls("https://x.io https://x.io https://y.io https://x.io"),
        vec!["https://x.io".to_string(), "https://y.io".to_string(), "https://x.io".to_string()]
    );
}

#[test]
fn extract_urls_stops_at_terminators() {
    assert_eq!(extract_urls("(https://a.b/c)"), vec!["https://a.b/c".to_string()]);
    assert_eq!(extract_urls("\"https://a.b/c\" x"), vec!["https://a.b/c".to_string()]);
    assert_eq!(extract_urls("<https://a.b>"), vec!["https://a.b".to_string()]);
    assert_eq!(extract_urls("[https://a.b]"), vec!["https://a.b".to_string()]);
    assert_eq!(extract_urls("'https://a.b'"), vec!["https://a.b".to_string()]);
    assert_eq!(extract_urls("https://a.b\u{3000}rest"), vec!["https://a.b".to_string()]);
}

#[test]
fn extract_urls_trims_full_stops() {
    assert_eq!(extract_urls("go to https://a.b/x... now"), vec!["https://a.b/x".to_string()]);
}

#[test]
fn extract_urls_none() {
    assert!(extract_urls("no links here, just http:/ and https:").is_empty());
    assert!(extract_urls("").is_empty());
}

#[test]
fn extracted_urls_are_well_shaped() {
    let text = "a https://p.q/r. b http://s.t,u https://v.w\t(https://x.y) http://z";
    for u in extract_urls(text) {
        assert!(u.starts_with("https://") || u.starts_with("http://"));
        assert!(!u.ends_with('.'));
        assert!(!u.chars().any(|c| c.is_whitespace() || "\"')]>,".contains(c)));
    }
}

// ---------------------------------------------------------------- session names

#[test]
fn safe_session_name_replaces_other_characters() {
    assert_eq!(safe_session_name("hello world/x"), "hello_world_x");
    assert_eq!(safe_session_name("日本語-ok_1"), "日本語-ok_1");
    assert_eq!(safe_session_name("a.b:c"), "a_b_c");
}

#[test]
fn safe_session_name_is_idempotent() {
    for s in ["a b", "x/y?z", "", "__", "名前 です"] {
        let once = safe_session_name(s);
        assert_eq!(safe_session_name(&once), once);
        assert_eq!(once.chars().count(), s.chars().count());
    }
}

#[test]
fn session_file_name_appends_json() {
    assert_eq!(session_file_name("a b"), "a_b.json");
    assert_eq!(session_file_name(""), ".json");
}

#[test]
fn session_slug_trims_underscores() {
    assert_eq!(session_slug("  Hello, world!  "), "Hello__world");
    assert_eq!(session_slug("a_b-c"), "a_b-c");
    assert_eq!(session_slug("???"), "");
}

#[test]
fn session_slug_takes_forty_characters() {
    let long = "x".repeat(50);
    assert_eq!(session_slug(&long), "x".repeat(40));
    let jp = "あ".repeat(45);
    assert_eq!(session_slug(&jp), "あ".repeat(40));
}

#[test]
fn timestamp_key_replaces_separators() {
    assert_eq!(timestamp_key("2024-05-01 12:30"), "2024_05_01_12_30");
}

#[test]
fn auto_session_name_joins_key_and_slug() {
    assert_eq!(auto_session_name("2024-05-01 12:30", "Hi there"), "2024_05_01_12_30_Hi_there");
    assert_eq!(auto_session_name("2024-05-01 12:30", "!!!"), "2024_05_01_12_30_");
}

#[test]
fn auto_session_name_is_a_safe_file_name() {
    let name = auto_session_name(&chrono_now(), "What is Rust? 教えて!");
    assert_eq!(safe_session_name(&name), name);
}

// ---------------------------------------------------------------- listings

#[test]
fn created_at_read_from_json() {
    assert_eq!(session_created_at(r#"{"created_at":"2024-01-01 00:00","x":1}"#), "2024-01-01 00:00");
    assert_eq!(session_created_at("not json"), "");
    assert_eq!(session_created_at(r#"{"created_at":5}"#), "");
    assert_eq!(session_created_at(r#"{"name":"x"}"#), "");
    assert_eq!(session_created_at(r#"["created_at"]"#), "");
}

#[test]
fn sessions_listed_newest_first_across_the_year_end() {
    let older = format_timestamp(31017600);
    let newer = format_timestamp(31104000);
    let next_year = format_timestamp(365 * 86400 + 60);
    let out = sessions_newest_first(vec![
        entry("older", &older),
        entry("next_year", &next_year),
        entry("newer", &newer),
    ]);
    let names: Vec<&str> = out.iter().map(|e| e.0.as_str()).collect();
    assert_eq!(names, vec!["next_year", "newer", "older"]);
}

#[test]
fn sessions_sorted_newest_first_stably() {
    let out = sessions_newest_first(vec![
        entry("a", "2024-01-01 00:00"),
        entry("b", "2025-01-01 00:00"),
        entry("c", ""),
        entry("d", "2024-01-01 00:00"),
        entry("e", "2024-01-01 00:01"),
    ]);
    let names: Vec<&str> = out.iter().map(|e| e.0.as_str()).collect();
    assert_eq!(names, vec!["b", "e", "a", "d", "c"]);
}

#[test]
fn sessions_sort_matches_std_stable_sort() {
    let input = vec![entry("1", "b"), entry("2", "ab"), entry("3", "b"), entry("4", "é"), entry("5", "a")];
    let mut expected = input.clone();
    expected.sort_by(|a, b| b.1.cmp(&a.1));
    assert_eq!(sessions_newest_first(input), expected);
}

#[test]
fn text_lt_is_str_order() {
    for (a, b) in [("a", "b"), ("ab", "a"), ("", "a"), ("a", ""), ("é", "z"), ("same", "same")] {
        assert_eq!(text_lt(a, b), a < b, "{a} {b}");
    }
}

#[test]
fn session_labels_show_timestamps() {
    let labels = session_labels(&vec![entry("a", ""), entry("b", "2024-01-01 00:00")]);
    assert_eq!(labels, vec!["a".to_string(), "b  [2024-01-01 00:00]".to_string()]);
}

#[test]
fn session_review_text_layout() {
    let sess = SavedSession {
        name: "s1".to_string(),
        created_at: "2024-01-01 00:00".to_string(),
        messages: vec![msg("system", "be nice"), msg("user", "hi"), msg("assistant", "hello"), msg("tool", "x")],
    };
    let heavy = "━".repeat(72);
    let expected = format!(
        "\n┏{heavy}\n┃ Session : s1\n┃ Saved   : 2024-01-01 00:00\n┃ Messages: 3\n┗{heavy}\n\
         \n\x1b[2m[System]\x1b[0m\n\x1b[2mbe nice\x1b[0m\n\
         \n\x1b[1m\x1b[32mYou:\x1b[0m\nhi\n\
         \n\x1b[1m\x1b[36mAssistant:\x1b[0m\n\x1b[36mhello\x1b[0m\n\
         \n{}\n\n",
        "─".repeat(72)
    );
    assert_eq!(session_review_text(&sess), expected);
}

#[test]
fn count_non_system_messages() {
    assert_eq!(count_non_system(&vec![msg("system", "a"), msg("user", "b"), msg("system", "c")]), 1);
    assert_eq!(count_non_system(&vec![]), 0);
}

#[test]
fn snapshot_copies_messages_and_stamps_time() {
    let msgs = vec![msg("user", "a"), msg("assistant", "b")];
    let s = SavedSession::snapshot("n", &msgs);
    assert_eq!(s.name, "n");
    assert_eq!(s.messages.len(), 2);
    assert_eq!(s.messages[1].content, "b");
    assert!(is_timestamp_shape(&s.created_at));
}

// ---------------------------------------------------------------- web pages

#[test]
fn html_page_text_collects_content_elements() {
    let body = "<html><head><title>T</title></head><body><p>Hello   <b>big</b>\n world</p><p>Hi</p>\
                <ul><li>Item one</li><li>Item one</li></ul><div>skip me</div><h2>Head</h2>\
                <script>var x;</script></body></html>";
    assert_eq!(html_page_text(body), Some("Hello big world\nItem one\nHead".to_string()));
}

#[test]
fn html_page_text_of_empty_page() {
    assert_eq!(html_page_text(""), Some(String::new()));
}

#[test]
fn html_page_text_cuts_long_pages() {
    let body = format!("<p>{}</p>", "a".repeat(9000));
    assert_eq!(html_page_text(&body), Some(format!("{}…[truncated]", "a".repeat(8000))));
}

#[test]
fn html_page_text_cuts_between_characters() {
    let body = format!("<p>{}</p>", "あ".repeat(3000));
    assert_eq!(html_page_text(&body), Some(format!("{}…[truncated]", "あ".repeat(2666))));
}

#[test]
fn clip_page_text_keeps_short_text() {
    assert_eq!(clip_page_text("short"), "short");
    let exact = "é".repeat(4000);
    assert_eq!(clip_page_text(&exact), exact);
    let long = "é".repeat(4001);
    assert_eq!(clip_page_text(&long), format!("{}…[truncated]", "é".repeat(4000)));
    let odd = format!("a{}", "é".repeat(4000));
    assert_eq!(clip_page_text(&odd), format!("a{}…[truncated]", "é".repeat(3999)));
}

#[test]
fn page_text_from_blocks_filters_short_and_repeats() {
    let blocks = vec![
        vec!["  a  ".to_string(), "bcd".to_string()],
        vec!["xy".to_string()],
        vec!["あ".to_string(), "".to_string()],
        vec!["a bcd".to_string()],
        vec!["last one".to_string()],
    ];
    assert_eq!(page_text_from_blocks(&blocks), "a bcd\nlast one");
}

#[test]
fn element_text_joins_pieces() {
    let v = element_text_of(&vec!["x".to_string(), "y".to_string()]);
    assert_eq!(v, vec!['x', ' ', 'y']);
}

#[test]
fn collapse_white_space_single_spaces() {
    let s: Vec<char> = " \t a \n\n b\u{00a0}c  ".chars().collect();
    let out: String = collapse_white_space(&s).into_iter().collect();
    assert_eq!(out, "a b c");
}

// ---------------------------------------------------------------- chat input

#[test]
fn line_text_trims_newline_then_carriage_return() {
    assert_eq!(line_text("hello\r\n"), "hello");
    assert_eq!(line_text("hi\n\r"), "hi\n");
    assert_eq!(line_text("a\n\n"), "a");
    assert_eq!(line_text(" keep "), " keep ");
}

#[test]
fn chat_input_commands() {
    assert_eq!(chat_input(""), ChatInput::Empty);
    assert_eq!(chat_input("/exit"), ChatInput::Exit);
    assert_eq!(chat_input("/new"), ChatInput::NewChat);
    assert_eq!(chat_input("/review"), ChatInput::Review);
    assert_eq!(chat_input("/delete"), ChatInput::Delete);
    assert_eq!(chat_input("/sessions"), ChatInput::Sessions);
    assert_eq!(chat_input("/exit "), ChatInput::Message);
    assert_eq!(chat_input("hello"), ChatInput::Message);
}

#[test]
fn augment_message_without_fetches() {
    assert_eq!(augment_message("question", &vec![]), "question");
}

#[test]
fn augment_message_with_fetches() {
    let fetched = vec![
        FetchResult { url: "https://a".to_string(), outcome: FetchOutcome::Text("page".to_string()) },
        FetchResult { url: "https://b".to_string(), outcome: FetchOutcome::Text(" \n ".to_string()) },
        FetchResult { url: "https://c".to_string(), outcome: FetchOutcome::Failed("boom".to_string()) },
    ];
    assert_eq!(
        augment_message("msg", &fetched),
        "[Retrieved content from https://a]\npage\n---\n\
         [Could not retrieve text content from https://b (page may require JavaScript)]\n---\n\
         [Fetch failed for https://c: boom]\n---\nmsg"
    );
}

// ---------------------------------------------------------------- chat state

fn roles(v: &[SavedMessage]) -> Vec<&str> {
    v.iter().map(|m| m.role.as_str()).collect()
}

#[test]
fn chat_session_turns() {
    let mut chat = ChatSession::new(Some("sys".to_string()));
    assert_eq!(roles(chat.prompt()), vec!["system"]);
    assert_eq!(chat.n_past(), 0);
    assert!(chat.session_name().is_none());

    chat.add_user_message("hello https://x", "[page]\nhello https://x");
    assert_eq!(chat.prompt()[1].content, "[page]\nhello https://x");
    assert_eq!(chat.saved()[1].content, "hello https://x");
    let name = chat.session_name().clone().unwrap();
    assert!(name.ends_with("_hello_https___x"), "{name}");
    assert_eq!(name.len(), 16 + 1 + 15);
    assert!(name[..16].chars().all(|c| c.is_ascii_digit() || c == '_'));

    assert_eq!(chat.plan_prompt(20), Some(0));
    chat.advance(20);
    assert_eq!(chat.n_past(), 20);
    assert!(chat.add_assistant_message("hi!"));
    assert_eq!(roles(chat.saved()), vec!["system", "user", "assistant"]);
    assert_eq!(chat.name_to_save_at_exit(), Some(name.clone()));

    chat.add_user_message("again", "again");
    assert_eq!(chat.session_name(), &Some(name.clone()));
    assert_eq!(chat.plan_prompt(20), None);
    assert_eq!(roles(chat.prompt()), vec!["system", "user", "assistant"]);
    assert_eq!(roles(chat.saved()), vec!["system", "user", "assistant"]);

    chat.reset();
    assert_eq!(roles(chat.prompt()), vec!["system"]);
    assert_eq!(chat.n_past(), 0);
    assert!(chat.session_name().is_none());
    assert_eq!(chat.name_to_save_at_exit(), None);
}

#[test]
fn chat_session_without_user_turn_is_not_saved() {
    let mut chat = ChatSession::new(Some("sys".to_string()));
    chat.load("old".to_string(), vec![msg("system", "s")]);
    assert_eq!(chat.name_to_save_at_exit(), None);
    chat.load("old".to_string(), vec![msg("system", "s"), msg("user", "u")]);
    assert_eq!(chat.name_to_save_at_exit(), Some("old".to_string()));
    chat.restore_context(7);
    assert_eq!(chat.n_past(), 7);
    assert_eq!(chat.system(), &Some("sys".to_string()));
}

#[test]
fn chat_session_logs_mirror_each_other() {
    let mut chat = ChatSession::new(None);
    assert!(chat.prompt().is_empty());
    chat.add_user_message("a", "ctx a");
    chat.add_assistant_message("b");
    chat.add_user_message("c", "c");
    assert_eq!(chat.prompt().len(), chat.saved().len());
    for (p, s) in chat.prompt().iter().zip(chat.saved().iter()) {
        assert_eq!(p.role, s.role);
        if p.role != "user" {
            assert_eq!(p.content, s.content);
        }
    }
}

#[test]
fn chat_saved_copy_holds_each_typed_line_and_reply() {
    let mut chat = ChatSession::new(Some("sys".to_string()));
    let turns = [("first https://a", "one"), ("second", "two"), ("third", "three")];
    for (typed, reply) in turns {
        chat.add_user_message(typed, &format!("[fetched]\n{typed}"));
        assert_eq!(chat.plan_prompt(chat.n_past() + 5), Some(chat.n_past()));
        chat.advance(5);
        chat.add_assistant_message(reply);
    }
    let saved: Vec<(&str, &str)> = chat.saved().iter().map(|m| (m.role.as_str(), m.content.as_str())).collect();
    assert_eq!(
        saved,
        vec![
            ("system", "sys"),
            ("user", "first https://a"),
            ("assistant", "one"),
            ("user", "second"),
            ("assistant", "two"),
            ("user", "third"),
            ("assistant", "three"),
        ]
    );
    assert_eq!(chat.prompt()[1].content, "[fetched]\nfirst https://a");
    assert_eq!(chat.n_past(), 15);
}

#[test]
fn batch_positions_mark_last() {
    assert_eq!(batch_positions(3, 3), vec![(3, false), (4, false), (5, true)]);
    assert!(batch_positions(9, 0).is_empty());
    assert_eq!(batch_positions(usize::MAX - 1, 1), vec![(-2, true)]);
}

#[test]
fn model_source_resolution() {
    assert_eq!(resolve_model_source(Some(Preset::Mistral7b), false), Ok(ModelSource::Download(Preset::Mistral7b)));
    assert_eq!(resolve_model_source(None, true), Ok(ModelSource::LocalFile));
    assert_eq!(resolve_model_source(None, false), Ok(ModelSource::Ask));
    assert_eq!(resolve_model_source(Some(Preset::Mistral7b), true), Err(SourceError::PresetAndModel));
}

// ---------------------------------------------------------------- text helpers

#[test]
fn text_helpers() {
    assert_eq!(chars_of("aé"), vec!['a', 'é']);
    assert_eq!(string_from_chars(&['x', 'y']), "xy");
    assert!(text_eq("abc", "abc"));
    assert!(!text_eq("abc", "abd"));
    assert!(is_blank(" \t\u{3000}"));
    assert!(!is_blank(" x "));
    assert!(is_blank("\u{85}\u{a0}\u{1680}\u{2000}\u{200a}\u{2028}\u{2029}\u{202f}\u{205f}\u{3000}"));
    assert!(!is_blank("\u{200b}"));
    assert!(!is_blank("\u{180e}"));
    for c in ['\u{0}', ' ', '\u{85}', '\u{a0}', '\u{1680}', '\u{2007}', '\u{200b}', '\u{feff}', '\u{3000}', 'x'] {
        assert_eq!(is_blank(&c.to_string()), c.is_whitespace(), "{:?}", c);
    }
    assert_eq!(trimmed_chars("  ab c \n"), vec!['a', 'b', ' ', 'c']);
    assert_eq!(decimal_chars(0), vec!['0']);
    assert_eq!(decimal_chars(1203), vec!['1', '2', '0', '3']);
    assert_eq!(char_utf8_width('a'), 1);
    assert_eq!(char_utf8_width('é'), 2);
    assert_eq!(char_utf8_width('あ'), 3);
    assert_eq!(char_utf8_width('😀'), 4);
}

#[test]
fn extract_urls_of_its_own_output_is_unchanged() {
    let text = "a http://x.io, b https://y.io/p?q=http://z. c https://y.io https://y.io (http://w)";
    let urls = extract_urls(text);
    assert_eq!(extract_urls(&urls.join(" ")), urls);
}

#[test]
fn preset_download_names_follow_one_scheme() {
    let all = Preset::all();
    for p in &all {
        let (owner, name) = p.repo_id().split_once('/').unwrap();
        assert!(!name.contains('/'));
        let jp3 = matches!(p, Preset::Swallow8b | Preset::ElyzaJp8b | Preset::Calm322b);
        assert_eq!(owner, if jp3 { "mmnga" } else { "bartowski" });
        let lower = name.to_ascii_lowercase();
        assert!(lower.ends_with("-gguf"));
        assert_eq!(
            p.filename().to_ascii_lowercase(),
            format!("{}-q4_k_m.gguf", &lower[..lower.len() - 5])
        );
    }
    for (i, p) in all.iter().enumerate() {
        for q in &all[i + 1..] {
            assert_ne!(p.repo_id(), q.repo_id());
            assert_ne!(p.filename(), q.filename());
        }
    }
}

// ---------------------------------------------------------------- generation

#[test]
fn generation_stops_at_end_token_without_keeping_it() {
    let mut g = Generation::new(10);
    assert!(g.wants_more());
    assert!(g.accept(false, "Hel"));
    assert!(g.accept(false, "lo"));
    assert!(!g.accept(true, "</s>"));
    assert!(!g.wants_more());
    assert_eq!(g.into_reply(), "Hello");
}

#[test]
fn generation_stops_at_the_token_limit() {
    let mut g = Generation::new(2);
    assert!(g.accept(false, "a"));
    assert!(g.wants_more());
    assert!(g.accept(false, "b"));
    assert!(!g.wants_more());
    assert_eq!(g.into_reply(), "ab");
}

#[test]
fn generation_with_no_room_samples_nothing() {
    let g = Generation::new(0);
    assert!(!g.wants_more());
    assert_eq!(g.into_reply(), "");
}
