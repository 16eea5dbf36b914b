use ob_oraborus::api_registry::{find_entry, health_label, ApiEntry};
use ob_oraborus::automation::{check_automation, new_definition};
use ob_oraborus::browser::{browser_precheck, browser_timeout_ms, runner_failed, BrowserAction, BrowserRequest};
use ob_oraborus::digest::sha256_hex;
use ob_oraborus::documents::{
    check_document_size, docx_document_text, docx_text, extract_document, extracted, parser_for, parser_label, pdf_tool_missing, text_of_bytes,
    DocumentParser, XmlEvent,
};
use ob_oraborus::emotional_context::{estimate, ConversationalCue};
use ob_oraborus::error::ErrorKind;
use ob_oraborus::files::{
    absent, add_match, destination_taken, file_match, search_step, SearchStep, name_matches, present, search_limit, search_terms, verify_copy,
    verify_delete, verify_move, verify_present, FileOperation,
};
use ob_oraborus::github::github_endpoint;
use ob_oraborus::json::JsonValue;
use ob_oraborus::models::RiskLevel;
use ob_oraborus::plugins::{check_manifest, check_manifest_size, judge_manifest, PluginManifest};
use ob_oraborus::research::{check_research_url, decode, digest_page};
use ob_oraborus::secrets::SecretVault;
use ob_oraborus::terminal::{bounded, cancelled_output, finished_output, redact_command, timed_out_output};
use ob_oraborus::tray::tray_action;
use ob_oraborus::vision::{check_display, image_mime, image_payload};
use ob_oraborus::voice::{
    engine_catalog, plan_speech, EngineProbe, plan_transcription, quote_for_powershell, status, transcriber_missing,
};
use ob_oraborus::windows_control::{folder_evidence, launch_evidence, normalize_request, process_token, resolve_app};

fn s(text: &str) -> String {
    text.to_string()
}

fn strings(items: &[&str]) -> Vec<String> {
    items.iter().map(|x| x.to_string()).collect()
}

#[test]
fn search_steps_stop_at_the_limit_and_keep_only_matches() {
    let terms = search_terms("Report 2024");
    assert_eq!(search_step(0, 2, "Annual-REPORT-2024.pdf", &terms), SearchStep::Inspect);
    assert_eq!(search_step(0, 2, "notes.txt", &terms), SearchStep::Skip);
    assert_eq!(search_step(2, 2, "report-2024.txt", &terms), SearchStep::Stop);
    let mut results = Vec::new();
    assert!(add_match(&mut results, 2, &terms, s("/a/report-2024.txt"), s("report-2024.txt"), 10, None, false));
    assert!(!add_match(&mut results, 2, &terms, s("/a/notes.txt"), s("notes.txt"), 3, None, false));
    assert!(add_match(&mut results, 2, &terms, s("/a/2024 Report"), s("2024 Report"), 0, None, true));
    assert!(!add_match(&mut results, 2, &terms, s("/a/report-2024.md"), s("report-2024.md"), 5, None, false));
    assert_eq!(results.len(), 2);
    assert_eq!(results[0].path, "/a/report-2024.txt");
    assert_eq!(results[0].kind, "file");
    assert_eq!(results[1].kind, "folder");
    assert_eq!(results[1].matched_by, vec![s("filename")]);
}

fn manifest(id: &str, version: &str, entry: &str) -> PluginManifest {
    PluginManifest {
        id: s(id),
        name: s("Demo"),
        version: s(version),
        author: s("me"),
        entry: s(entry),
        capabilities: vec![],
        permissions: vec![],
        dependencies: vec![],
        security_requirements: vec![],
        signature: None,
    }
}

fn api(id: &str) -> ApiEntry {
    ApiEntry {
        api_id: s(id),
        name: s(id),
        category: s("Test"),
        base_url: s("https://example.com"),
        authentication: s("none"),
        https: true,
        cors: s("yes"),
        status: s("UNKNOWN"),
        last_checked: None,
        rate_limit: s("-"),
        documentation_url: s("https://example.com/docs"),
        adapter_name: None,
        capabilities: vec![],
        enabled: true,
    }
}

#[test]
fn no_medical_claims() {
    assert!(!estimate("I am frustrated").medical_diagnosis)
}

#[test]
fn tone_is_read_from_terms() {
    let e = estimate("This is NOT WORKING again! so frustrated");
    assert_eq!(e.cue, ConversationalCue::Frustrated);
    assert_eq!(e.score, 3);
    assert_eq!(e.style_instruction, "Respond calmly, briefly, and lead with the next concrete step.");
    let calm = estimate("hello there");
    assert_eq!(calm.cue, ConversationalCue::Casual);
    assert_eq!(calm.score, 0);
    assert_eq!(calm.style_instruction, "Use a natural, concise, respectful tone.");
    assert_eq!(estimate("urgent, I am confused").cue, ConversationalCue::Confused);
    assert_eq!(estimate("আমি বিরক্ত").cue, ConversationalCue::Frustrated);
}

#[test]
fn sha256_of_abc() {
    assert_eq!(sha256_hex(b"abc"), "ba7816bf8f01cfea414140de5dae2223b00361a396177a9cb410ff61f20015ad");
    assert_eq!(sha256_hex(b""), "e3b0c44298fc1c149afbf4c8996fb92427ae41e4649b934ca495991b7852b855");
}

#[test]
fn research_urls_and_pages() {
    assert!(check_research_url("https://example.com/a").is_ok());
    let blocked = check_research_url("ftp://example.com").unwrap_err();
    assert_eq!(blocked.kind(), ErrorKind::SecurityBlocked);
    assert_eq!(blocked.detail(), "Research reader allows only HTTP and HTTPS");
    let invalid = check_research_url("not a url").unwrap_err();
    assert_eq!(invalid.kind(), ErrorKind::Validation);
    assert_eq!(decode("a &amp;lt; b &quot;c&quot; &#39;d&#39;"), "a < b \"c\" 'd'");
    let html = "<html><head><title>Tom &amp; Jerry</title><style>p{}</style></head><body><p>Hello   <b>world</b></p></body></html>";
    let page = digest_page("https://example.com/", html).expect("page");
    assert_eq!(page.title, "Tom & Jerry");
    assert_eq!(page.text, "Tom & Jerry Hello world");
    assert_eq!(page.key_finding, page.text);
    assert_eq!(page.url, "https://example.com/");
    assert_eq!(page.content_hash, sha256_hex(html.as_bytes()));
    let untitled = digest_page("https://example.com/x", "<p>x</p>").expect("page");
    assert_eq!(untitled.title, "https://example.com/x");
}

#[test]
fn the_key_finding_is_the_start_of_the_text() {
    let body = "word ".repeat(200);
    let html = format!("<html><body><p>{}</p></body></html>", body);
    let page = digest_page("https://example.com/long", &html).expect("page");
    assert_eq!(page.key_finding.chars().count(), 420);
    assert!(page.text.starts_with(&page.key_finding));
    assert_eq!(page.text.chars().count(), 999);
}

#[test]
fn terminal_output_is_bounded_and_secrets_hidden() {
    assert_eq!(redact_command("set API_KEY=abc123 && run"), "set API_KEY=[REDACTED] && run");
    assert_eq!(redact_command("echo token: xyz; ls"), "echo token=[REDACTED]; ls");
    assert_eq!(redact_command("dir"), "dir");
    assert_eq!(bounded(b"ok"), "ok");
    assert_eq!(bounded(&[0x61, 0xff, 0x62]), "a\u{fffd}b");
    assert_eq!(bounded(&vec![b'x'; 1_000_005]).len(), 1_000_000);
    let done = finished_output("password=hunter2", Some(0), b"out", b"");
    assert_eq!(done.command_preview, "password=[REDACTED]");
    assert_eq!(done.exit_code, Some(0));
    assert_eq!(done.stdout, "out");
    assert!(!done.timed_out && !done.cancelled);
    let late = timed_out_output("sleep 100");
    assert!(late.timed_out);
    assert_eq!(late.stderr, "Process exceeded its timeout and was terminated.");
    assert!(cancelled_output("x").cancelled);
}

#[test]
fn speech_and_transcription_commands() {
    assert_eq!(quote_for_powershell("it's"), "it''s");
    let statuses = vec![
        status("windows-sapi", "Windows SAPI", "tts", true, "Installed Windows voices"),
        status("espeak-ng", "eSpeak NG", "tts", true, "Engine dependent"),
        status("piper", "Piper", "tts", false, "Model dependent"),
    ];
    assert_eq!(statuses[2].detail, "REQUIRES CONFIGURATION");
    let sapi = plan_speech("windows-sapi", "Don't panic", Some("Zira"), &statuses).expect("sapi");
    assert_eq!(sapi.program, "powershell.exe");
    assert_eq!(sapi.args[..3].to_vec(), strings(&["-NoProfile", "-NonInteractive", "-Command"]));
    assert_eq!(
        sapi.args[3],
        "Add-Type -AssemblyName System.Speech; $s=New-Object System.Speech.Synthesis.SpeechSynthesizer; $s.SelectVoice('Zira'); $s.Speak('Don''t panic')"
    );
    let espeak = plan_speech("espeak-ng", "hi", None, &statuses).expect("espeak");
    assert_eq!(espeak.program, "espeak-ng");
    assert_eq!(espeak.args, strings(&["hi"]));
    assert_eq!(plan_speech("piper", "hi", None, &statuses).unwrap_err().detail(), "Piper is not installed");
    assert_eq!(plan_speech("nope", "hi", None, &statuses).unwrap_err().detail(), "Unknown voice engine");
    assert_eq!(plan_speech("espeak-ng", "   ", None, &statuses).unwrap_err().detail(), "Speech text is empty");
    let t = plan_transcription("vosk", "a.wav", true, Some("en")).expect("vosk");
    assert_eq!(t.program, "vosk-transcriber");
    assert_eq!(t.args, strings(&["a.wav", "--language", "en"]));
    assert_eq!(plan_transcription("whisper", "a.wav", false, None).unwrap_err().detail(), "Audio file does not exist");
    assert_eq!(transcriber_missing("whisper").detail(), "whisper is not installed");
    let catalog = engine_catalog();
    assert_eq!(catalog.len(), 8);
    let kinds: Vec<String> = catalog.iter().map(|e| e.kind.clone()).collect();
    assert_eq!(kinds, strings(&["tts", "tts", "tts", "tts", "tts", "stt", "stt", "stt"]));
    assert_eq!(catalog[5].label, "Whisper");
    assert!(matches!(&catalog[1].probe, EngineProbe::WindowsBuiltIn));
    assert!(matches!(&catalog[7].probe, EngineProbe::Executable(name) if name == "vosk-transcriber"));
    assert!(matches!(&catalog[2].probe, EngineProbe::Executable(name) if name == "tts"));
}

#[test]
fn only_registered_applications_launch() {
    assert_eq!(normalize_request("  Google Chrome. "), "google chrome");
    assert_eq!(resolve_app("Notepad!").expect("notepad"), "notepad.exe");
    assert_eq!(resolve_app("VS Code").expect("code"), "code.cmd");
    let e = resolve_app("regedit").unwrap_err();
    assert_eq!(e.kind(), ErrorKind::RequiresConfiguration);
    assert_eq!(
        e.detail(),
        "'regedit' is not in the safe application registry. Add an explicit executable in Settings → Tools."
    );
    assert_eq!(process_token("code.cmd"), "code");
    assert_eq!(process_token("Spotify.exe"), "spotify");
    let ev = launch_evidence("notepad", s("notepad.exe"), Some(s("Notepad.exe")));
    assert!(ev.process_detected);
    assert_eq!(folder_evidence("C:\\x").executable, "explorer.exe");
}

#[test]
fn github_paths_stay_on_the_api() {
    assert_eq!(github_endpoint("/user/repos").expect("path"), "https://api.github.com/user/repos");
    assert_eq!(github_endpoint("user").unwrap_err().detail(), "GitHub API path is invalid");
    assert!(github_endpoint("/repos/../admin").is_err());
}

#[test]
fn api_health_labels() {
    assert_eq!(health_label(None), "OFFLINE");
    assert_eq!(health_label(Some((429, 0))), "RATE LIMITED");
    assert_eq!(health_label(Some((403, 0))), "AUTH REQUIRED");
    assert_eq!(health_label(Some((200, 2))), "ONLINE");
    assert_eq!(health_label(Some((204, 3))), "SLOW");
    assert_eq!(health_label(Some((500, 0))), "OFFLINE");
    let entries = vec![api("a"), api("b")];
    assert_eq!(find_entry(&entries, "b").expect("found"), 1);
    assert_eq!(find_entry(&entries, "z").unwrap_err().detail(), "API entry was not found");
}

#[test]
fn tray_items_act_as_labelled() {
    let privacy = tray_action("privacy");
    assert_eq!(
        privacy.settings,
        vec![
            (s("local_only"), true),
            (s("privacy.microphone"), false),
            (s("privacy.camera"), false),
            (s("privacy.screen_capture"), false)
        ]
    );
    assert_eq!(tray_action("pause").settings, vec![(s("paused"), true)]);
    assert_eq!(tray_action("resume").settings, vec![(s("paused"), false)]);
    assert!(tray_action("stop").stop_all);
    assert!(tray_action("open").show_window);
    assert_eq!(tray_action("quick").event, Some(s("ob://quick-command")));
    assert!(tray_action("exit").exit);
    let unknown = tray_action("bogus");
    assert!(!unknown.show_window && !unknown.exit && !unknown.stop_all && unknown.settings.is_empty());
}

#[test]
fn file_search_terms_and_checks() {
    assert_eq!(search_terms("Budget  2024\tREPORT"), strings(&["budget", "2024", "report"]));
    assert!(name_matches("Q1-Budget-2024.xlsx", &strings(&["budget", "2024"])));
    assert!(!name_matches("notes.txt", &strings(&["budget"])));
    assert_eq!(search_limit(0), 1);
    assert_eq!(search_limit(50), 50);
    assert_eq!(search_limit(10_000), 500);
    let m = file_match(s("C:\\a"), s("a"), 3, None, true);
    assert_eq!(m.kind, "folder");
    assert_eq!(m.matched_by, strings(&["filename"]));
    let gone = absent(s("x"));
    assert!(verify_delete(&gone).is_ok());
    let here = present(s("y"), true, 5, Some(s("ab")));
    assert!(verify_present(&here, Some(5)).is_ok());
    assert_eq!(verify_present(&here, Some(6)).unwrap_err().detail(), "Filesystem verification failed");
    assert!(verify_copy(&here, "ab").is_ok());
    assert!(verify_copy(&here, "cd").is_err());
    assert!(verify_move(false, &here).is_ok());
    assert!(verify_move(true, &here).is_err());
    assert!(verify_delete(&here).is_err());
    assert_eq!(
        destination_taken(FileOperation::Move).detail(),
        "Destination already exists; choose rename, skip, or approve overwrite"
    );
}

#[test]
fn documents_are_parsed_by_kind() {
    assert_eq!(parser_for("PDF").expect("pdf"), DocumentParser::Pdf);
    assert_eq!(parser_for("md").expect("md"), DocumentParser::Utf8Text);
    assert_eq!(parser_for("exe").unwrap_err().detail(), "No local parser is configured for .exe");
    assert_eq!(parser_label(DocumentParser::Docx), "DOCX Open XML");
    assert!(check_document_size(100 * 1024 * 1024).is_ok());
    assert!(check_document_size(100 * 1024 * 1024 + 1).is_err());
    assert_eq!(text_of_bytes(b"caf\xc3\xa9".to_vec()).expect("utf8"), "café");
    assert_eq!(text_of_bytes(vec![0xff]).unwrap_err().detail(), "Text file is not valid UTF-8");
    let events = vec![
        XmlEvent::Text(s("Hello")),
        XmlEvent::Other,
        XmlEvent::Text(s("world")),
        XmlEvent::End(s("w:p")),
        XmlEvent::End(s("w:r")),
        XmlEvent::Eof,
        XmlEvent::Text(s("ignored")),
    ];
    assert_eq!(docx_text(&events).expect("docx"), "Hello world \n");
    let broken = vec![XmlEvent::Text(s("a")), XmlEvent::Error(s("bad tag"))];
    assert_eq!(docx_text(&broken).unwrap_err().detail(), "DOCX XML error: bad tag");
    let doc = extracted(s("a.txt"), DocumentParser::Utf8Text, s("hi"), b"hi", 2);
    assert_eq!(doc.parser, "UTF-8 local reader");
    assert_eq!(doc.source_hash, sha256_hex(b"hi"));
    assert!(doc.warnings.is_empty());
    assert_eq!(pdf_tool_missing().kind(), ErrorKind::RequiresConfiguration);
    let text = extract_document(s("n.md"), "MD", b"# hi".to_vec(), 4).expect("text").expect("not a pdf");
    assert_eq!(text.text, "# hi");
    assert_eq!(text.parser, "UTF-8 local reader");
    assert!(extract_document(s("a.pdf"), "pdf", vec![1, 2], 2).expect("pdf").is_none());
    assert_eq!(
        extract_document(s("big.txt"), "txt", vec![], 200 * 1024 * 1024).unwrap_err().detail(),
        "Document exceeds the 100 MB local parsing limit"
    );
    assert!(extract_document(s("x.exe"), "exe", vec![], 1).is_err());
    let bad = docx_document_text(b"not a zip archive").unwrap_err();
    assert_eq!(bad.kind(), ErrorKind::Validation);
    assert!(bad.detail().starts_with("DOCX archive is invalid: "));
}

#[test]
fn images_are_typed_and_encoded() {
    assert_eq!(image_mime("JPG").expect("jpg"), "image/jpeg");
    assert_eq!(image_mime("gif").unwrap_err().detail(), "Unsupported vision image type");
    let (mime, data) = image_payload("png", b"Man").expect("png");
    assert_eq!(mime, "image/png");
    assert_eq!(data, "TWFu");
    assert_eq!(image_payload("webp", b"Ma").expect("webp").1, "TWE=");
    assert_eq!(image_payload("webp", b"M").expect("webp").1, "TQ==");
    assert!(check_display(0, 1).is_ok());
    assert_eq!(check_display(1, 1).unwrap_err().detail(), "Display index does not exist");
}

#[test]
fn browser_workflows_are_checked() {
    assert_eq!(browser_timeout_ms(10), 1_000);
    assert_eq!(browser_timeout_ms(5_000), 5_000);
    assert_eq!(browser_timeout_ms(1_000_000), 300_000);
    let request = BrowserRequest {
        profile_dir: s("p"),
        headless: true,
        actions: vec![
            BrowserAction::Navigate { url: s("https://example.com") },
            BrowserAction::Read { selector: None },
            BrowserAction::Navigate { url: s("file:///etc/passwd") },
        ],
        timeout_ms: 5_000,
    };
    let e = browser_precheck(true, &request).unwrap_err();
    assert_eq!(e.kind(), ErrorKind::SecurityBlocked);
    assert_eq!(e.detail(), "Only HTTP and HTTPS navigation is allowed");
    assert_eq!(browser_precheck(false, &request).unwrap_err().detail(), "Playwright runner was not bundled");
    let fine = BrowserRequest { profile_dir: s("p"), headless: true, actions: vec![], timeout_ms: 1 };
    assert!(browser_precheck(true, &fine).is_ok());
    assert_eq!(runner_failed("boom").detail(), "Browser runner failed: boom");
}

#[test]
fn plugin_manifests_stay_in_their_folder() {
    assert!(check_manifest_size(1024 * 1024).is_ok());
    assert_eq!(check_manifest_size(1024 * 1024 + 1).unwrap_err().detail(), "Plugin manifest exceeds 1 MB");
    assert!(check_manifest(&manifest("demo", "1.0.0", "main.js")).is_ok());
    let climb = check_manifest(&manifest("demo", "1.0.0", "../evil.js")).unwrap_err();
    assert_eq!(climb.kind(), ErrorKind::SecurityBlocked);
    assert!(check_manifest(&manifest("  ", "1.0.0", "main.js")).is_err());
    assert!(judge_manifest(&manifest("demo", "1", "main.js"), true).is_err());
    assert!(check_manifest(&manifest("demo", "1", "plugins/demo/index.js")).is_ok());
    let rooted = check_manifest(&manifest("demo", "1", "/opt/evil.js"));
    assert_eq!(rooted.is_err(), std::path::Path::new("/opt/evil.js").is_absolute());
}

#[test]
fn automations_are_limited_and_start_disabled() {
    assert_eq!(
        check_automation("  ", 1).unwrap_err().detail(),
        "Automation requires a name and at least one step"
    );
    assert!(check_automation("daily", 0).is_err());
    assert_eq!(check_automation("daily", 101).unwrap_err().detail(), "Automation exceeds the 100-action hard limit");
    assert!(check_automation("daily", 100).is_ok());
    let d = new_definition(
        s("id1"),
        "daily",
        JsonValue::Null,
        vec![JsonValue::Null],
        JsonValue::Null,
        RiskLevel::Safe,
        s("2024-05-01T00:00:00Z"),
    );
    assert!(!d.enabled);
    assert_eq!(d.maximum_actions, 100);
    assert_eq!(d.created_at, d.updated_at);
}

#[test]
fn secrets_must_not_be_blank() {
    let vault = SecretVault;
    assert_eq!(vault.check_secret(" \t ").unwrap_err().detail(), "Secret cannot be empty");
    assert!(vault.check_secret("sk-123").is_ok());
    assert_eq!(vault.missing_credential("gemini").detail(), "No credential stored for gemini");
    assert_eq!(vault.store_failure("Secret storage failed", "locked").detail(), "Secret storage failed: locked");
}

#[test]
fn docx_archives_without_a_body_are_refused() {
    let mut buffer = std::io::Cursor::new(Vec::new());
    {
        let mut writer = zip::ZipWriter::new(&mut buffer);
        let options = zip::write::SimpleFileOptions::default().compression_method(zip::CompressionMethod::Stored);
        writer.start_file("word/styles.xml", options).expect("entry");
        std::io::Write::write_all(&mut writer, b"<w:styles/>").expect("xml");
        writer.finish().expect("archive");
    }
    let bytes = buffer.into_inner();
    let e = docx_document_text(&bytes).unwrap_err();
    assert_eq!(e.kind(), ErrorKind::Validation);
    assert_eq!(e.detail(), "DOCX document.xml is missing");
    let e = extract_document(s("b.docx"), "docx", bytes.clone(), bytes.len() as u64).unwrap_err();
    assert_eq!(e.detail(), "DOCX document.xml is missing");
}

#[test]
fn docx_bodies_are_read_from_the_archive() {
    let mut buffer = std::io::Cursor::new(Vec::new());
    {
        let mut writer = zip::ZipWriter::new(&mut buffer);
        let options = zip::write::SimpleFileOptions::default().compression_method(zip::CompressionMethod::Stored);
        writer.start_file("word/document.xml", options).expect("entry");
        std::io::Write::write_all(
            &mut writer,
            b"<w:document><w:body><w:p><w:r><w:t>Tom &amp; Jerry</w:t></w:r></w:p><w:p><w:r><w:t>end</w:t></w:r></w:p></w:body></w:document>")
            .expect("xml");
        writer.finish().expect("archive");
    }
    let bytes = buffer.into_inner();
    assert_eq!(docx_document_text(&bytes).expect("docx"), "Tom & Jerry \nend \n");
    let doc = extract_document(s("a.docx"), "DOCX", bytes.clone(), bytes.len() as u64).expect("docx").expect("document");
    assert_eq!(doc.parser, "DOCX Open XML");
    assert_eq!(doc.text, "Tom & Jerry \nend \n");
    assert_eq!(doc.source_hash, sha256_hex(&bytes));
}
