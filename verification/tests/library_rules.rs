use utranslate::cache::TranslationCache;
use utranslate::engine_chain::{
    bing_keys, bing_translation, google_translation, http_status_error, mymemory_pair,
    mymemory_source, mymemory_translation, BingReply, ChunkedTranslation, DictEntry, EngineChain,
    EngineKind, GoogleReply, MyMemoryReply,
};
use utranslate::engines::{cache_key, chunk_paragraphs, Translation, CHUNK};
use utranslate::history::{favorites_csv, like_pattern, trimmed_query, Entry};
use utranslate::hotkeys::{action_for_shortcut, hotkey_status, mark_duplicates};
use utranslate::ocr::{
    add_crop_pixels, bgr_len, check_rgba_input, check_text_box, crop_area, rgba_to_bgr,
};
use utranslate::policy::{
    next_request, should_send_progress, toast_for, update_error_for, update_error_message,
    with_original_edges,
};
use utranslate::selection_flow::Action;
use utranslate::selector::Utf16;

fn translation(text: &str, engine: &str) -> Translation {
    Translation {
        text: text.into(),
        detected: "en".into(),
        target: "ru".into(),
        engine: engine.into(),
        alternatives: vec![],
        fallback_from: None,
    }
}

#[test]
fn engine_chain_skips_unknown_engines_and_keeps_the_first_failure() {
    let mut chain = EngineChain::new(vec!["deepl".into(), "google".into(), "bing".into()]);
    assert_eq!(chain.next_call(), Some(EngineKind::Google));
    assert!(chain.on_result(Err("HTTP 429".into())).is_none());
    assert_eq!(chain.next_call(), Some(EngineKind::Bing));
    let t = chain.on_result(Ok(translation("привет", "bing"))).unwrap();
    assert_eq!(t.fallback_from.as_deref(), Some("deepl: неизвестный движок deepl"));
    assert_eq!(chain.next_call(), None);

    let mut failing = EngineChain::new(vec!["google".into()]);
    assert_eq!(failing.next_call(), Some(EngineKind::Google));
    assert!(failing.on_result(Err("HTTP 500".into())).is_none());
    assert_eq!(failing.next_call(), None);
    assert_eq!(failing.failure(), "google: HTTP 500");
    assert_eq!(EngineChain::new(vec![]).failure(), "нет ни одного движка");
}

#[test]
fn engine_replies_become_translations() {
    let reply = GoogleReply {
        sentences: vec![Some("При".into()), None, Some("вет".into())],
        dict: vec![DictEntry { pos: None, terms: vec![Some("мир".into()), None] }],
        src: Some("en".into()),
    };
    let t = google_translation(&reply, "ru").unwrap();
    assert_eq!(t.text, "Привет");
    assert_eq!(t.engine, "google");
    assert_eq!(t.alternatives[0].pos, "");
    assert_eq!(t.alternatives[0].terms, vec!["мир".to_string()]);
    let empty = GoogleReply { sentences: vec![None], dict: vec![], src: None };
    assert_eq!(google_translation(&empty, "ru").unwrap_err(), "пустой ответ");

    let bing = bing_translation(&BingReply { text: Some("Hallo".into()), detected: None }, "de").unwrap();
    assert_eq!((bing.text.as_str(), bing.detected.as_str()), ("Hallo", ""));
    assert!(bing_translation(&BingReply { text: Some(String::new()), detected: None }, "de").is_err());

    let forbidden = MyMemoryReply { translated: Some("x".into()), status: Some(403), details: Some("limit".into()) };
    assert_eq!(mymemory_translation(&forbidden, "en", "ru").unwrap_err(), "limit");
    let ok = MyMemoryReply { translated: Some("мир".into()), status: Some(200), details: None };
    assert_eq!(mymemory_translation(&ok, "en", "ru").unwrap().detected, "en");
    assert_eq!(mymemory_pair(&mymemory_source(None), "ru"), "en|ru");
    assert_eq!(mymemory_source(Some("de")), "de");
    assert_eq!(http_status_error(429).as_deref(), Some("HTTP 429"));
    assert_eq!(http_status_error(204), None);
}

#[test]
fn bing_page_keys_are_read_between_their_markers() {
    let page = "a IG:\"XY12\" b params_AbusePreventionHelper = [1717,\"tok-en\",3600000] c";
    let keys = bing_keys(page).unwrap();
    assert_eq!((keys.ig.as_str(), keys.key.as_str(), keys.token.as_str()), ("XY12", "1717", "tok-en"));
    assert_eq!(bing_keys("nothing").unwrap_err(), "нет IG на странице");
    assert_eq!(bing_keys("IG:\"A\"").unwrap_err(), "нет токена на странице");
    assert_eq!(bing_keys("IG:\"A\" params_AbusePreventionHelper = [1]").unwrap_err(), "нет token");
}

#[test]
fn long_text_is_translated_in_chunks_and_joined() {
    let short = ChunkedTranslation::new("hello");
    assert_eq!(short.chunks, vec!["hello".to_string()]);
    let para = format!("{}\n", "a".repeat(3000));
    let text = format!("{para}{para}");
    let mut long = ChunkedTranslation::new(&text);
    assert_eq!(long.chunks, chunk_paragraphs(&text));
    assert_eq!(long.chunks.len(), 2);
    while let Some(chunk) = long.next_chunk() {
        assert!(chunk.chars().count() <= CHUNK);
        let mut t = translation(&chunk.to_uppercase(), "google");
        t.alternatives = vec![utranslate::engines::Alternative { pos: "n".into(), terms: vec![] }];
        long.on_translated(t);
    }
    let joined = long.finish().unwrap();
    assert_eq!(joined.text, text.to_uppercase());
    assert!(joined.alternatives.is_empty());
}

#[test]
fn cache_gives_back_what_was_stored_and_empties_when_full() {
    let order = vec!["google".to_string()];
    let mut cache = TranslationCache::new();
    let key = cache_key("hello", "ru", None, &order);
    cache.insert(key.clone(), translation("привет", "google"));
    assert_eq!(cache.get(&key).unwrap().text, "привет");
    cache.insert(key.clone(), translation("здравствуй", "google"));
    assert_eq!(cache.get(&key).unwrap().text, "здравствуй");
    assert_eq!(cache.entries.len(), 1);
    for i in 0..199 {
        cache.insert(cache_key(&format!("t{i}"), "ru", None, &order), translation("x", "google"));
    }
    assert_eq!(cache.entries.len(), 200);
    cache.insert(cache_key("new", "ru", None, &order), translation("y", "google"));
    assert_eq!(cache.entries.len(), 1);
    assert!(cache.get(&key).is_none());
}

#[test]
fn favorites_export_quotes_texts_and_lists_languages() {
    let entry = Entry {
        id: 1,
        source_text: "say \"hi\"".into(),
        result_text: "скажи «привет»".into(),
        source_lang: "en".into(),
        target_lang: "ru".into(),
        engine: "google".into(),
        mode: "popup".into(),
        is_favorite: true,
        created_at: 0,
    };
    assert_eq!(
        favorites_csv(&[entry]),
        "source;translation;from;to\n\"say \"\"hi\"\"\";\"скажи «привет»\";en;ru\n"
    );
    assert_eq!(favorites_csv(&[]), "source;translation;from;to\n");
    assert_eq!(like_pattern("  hel "), "%hel%");
    assert_eq!(trimmed_query(" \n"), "");
}

#[test]
fn hotkeys_used_twice_name_the_first_field() {
    let parsed = vec![Ok(5u64), Ok(6), Ok(5), Err("Нужен Ctrl, Alt, Shift или Win".to_string())];
    let marked = mark_duplicates(parsed, &["Перевести в попап", "Заменить выделенное", "Открыть окно", "Перевести с экрана"]);
    assert_eq!(marked[0], Ok(5));
    assert_eq!(marked[1], Ok(6));
    assert_eq!(marked[2], Err("Совпадает с «Перевести в попап»".to_string()));
    assert_eq!(marked[3], Err("Нужен Ctrl, Alt, Shift или Win".to_string()));
    assert_eq!(hotkey_status("hotkeyPopup", Ok(5), true, false).error.as_deref(), Some("Занято другой программой"));
    assert_eq!(hotkey_status("hotkeyPopup", Ok(5), false, false).error, None);
    assert_eq!(action_for_shortcut(&[Some(1), Some(2), Some(2), None], 2), Some(Action::Replace));
    assert_eq!(action_for_shortcut(&[Some(1), Some(2), Some(3), Some(4)], 9), None);
}

#[test]
fn ocr_input_and_crop_boxes_are_checked_before_recognition() {
    assert_eq!(check_rgba_input(2, 1, 8), Ok(8));
    assert_eq!(
        check_rgba_input(2, 1, 7).unwrap_err(),
        "Длина RGBA-буфера не совпадает с размером изображения: ожидалось 8, получено 7"
    );
    assert_eq!(rgba_to_bgr(2, 1, &[1, 2, 3, 4, 5, 6, 7, 8]).unwrap(), vec![3, 2, 1, 7, 6, 5]);
    assert!(rgba_to_bgr(2, 1, &[1, 2, 3]).is_err());
    assert!(check_text_box(&[(0, 0), (50, 0), (50, 50)], 100, 100).is_err());
    assert_eq!(
        check_text_box(&[(0, 0), (101, 0), (101, 50), (0, 50)], 100, 100).unwrap_err(),
        "Detector OCR вернул crop за границами изображения"
    );
    assert_eq!(
        check_text_box(&[(0, 0), (100, 100), (0, 100), (100, 0)], 100, 100).unwrap_err(),
        "Detector OCR вернул невыпуклый или неупорядоченный crop"
    );
    assert!(check_text_box(&[(0, 0), (50, 0), (50, 50), (0, 50)], 100, 100).is_ok());
    assert!(crop_area(u64::MAX, 2).is_err());
    let mut total = 0;
    for _ in 0..4 {
        total = add_crop_pixels(total, 2_048 * 2_048).unwrap();
    }
    assert!(add_crop_pixels(total, 2_048 * 2_048).unwrap_err().contains("превышает предел"));
}

#[test]
fn small_texts_and_wire_formats() {
    assert_eq!(with_original_edges("  hello\n", "привет"), "  привет\n");
    assert_eq!(with_original_edges(" \t", "x"), " \tx \t");
    assert_eq!(Utf16::new("A😀").units, vec![0x41, 0xD83D, 0xDE00, 0]);
    assert_eq!(Utf16::new("ab").len(), 2);
    assert_eq!(next_request(7), 8);
    assert_eq!(next_request(u64::MAX), 0);
    let toast = toast_for("готово", true);
    assert!(toast.overlay);
    assert_eq!(update_error_message("error sending request for url"), "Нет соединения");
    assert_eq!(update_error_message("DNS failure"), "Нет соединения");
    assert_eq!(update_error_message("bad signature"), "Не удалось проверить обновления: bad signature");
    assert!(should_send_progress(0, 10, Some(10)));
    assert!(!should_send_progress(50, 5, Some(10)));
}

#[test]
fn update_errors_are_told_by_their_lowercase_form() {
    assert_eq!(update_error_for("Connect refused", "connect refused"), "Нет соединения");
    assert_eq!(
        update_error_for("Connect refused", "Connect refused"),
        "Не удалось проверить обновления: Connect refused"
    );
    assert_eq!(update_error_for("x", "request timed out"), "Нет соединения");
}

#[test]
fn three_channel_buffer_size_is_three_bytes_a_pixel() {
    assert_eq!(bgr_len(640, 480), 921_600);
    assert_eq!(rgba_to_bgr(2, 1, &[1, 2, 3, 4, 5, 6, 7, 8]).unwrap(), vec![3, 2, 1, 7, 6, 5]);
}
