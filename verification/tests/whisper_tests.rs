use playback_core::whisper::WhisperLanguage;
use playback_core::whisper::WhisperModel;
use playback_core::whisper::extract_pid_from_ps_line;
use playback_core::whisper::extract_text_from_srt;

#[test]
fn model_names_match_the_recognizer() {
    assert_eq!(WhisperModel::Tiny.as_str(), "tiny");
    assert_eq!(WhisperModel::Base.as_str(), "base");
    assert_eq!(WhisperModel::Small.as_str(), "small");
    assert_eq!(WhisperModel::Medium.as_str(), "medium");
    assert_eq!(WhisperModel::Large.as_str(), "large");
    assert_eq!(WhisperModel::Turbo.as_str(), "turbo");
}

#[test]
fn model_list_is_complete_and_ordered() {
    let all = WhisperModel::all();
    assert_eq!(
        all,
        vec![
            WhisperModel::Tiny,
            WhisperModel::Base,
            WhisperModel::Small,
            WhisperModel::Medium,
            WhisperModel::Large,
            WhisperModel::Turbo,
        ]
    );
    assert_eq!(WhisperModel::default(), WhisperModel::Base);
}

#[test]
fn language_labels_and_codes() {
    assert_eq!(WhisperLanguage::Unknown.as_str(), "Auto Detect");
    assert_eq!(WhisperLanguage::Japanese.as_str(), "Japanese");
    assert_eq!(WhisperLanguage::Custom.as_str(), "Custom (Manual Input)");
    assert_eq!(WhisperLanguage::Unknown.code(), None);
    assert_eq!(WhisperLanguage::Japanese.code(), Some("ja"));
    assert_eq!(WhisperLanguage::English.code(), Some("en"));
    assert_eq!(WhisperLanguage::Chinese.code(), Some("zh"));
    assert_eq!(WhisperLanguage::French.code(), Some("fr"));
    assert_eq!(WhisperLanguage::German.code(), Some("de"));
    assert_eq!(WhisperLanguage::Spanish.code(), Some("es"));
    assert_eq!(WhisperLanguage::Italian.code(), Some("it"));
    assert_eq!(WhisperLanguage::Russian.code(), Some("ru"));
    assert_eq!(WhisperLanguage::Custom.code(), None);
}

#[test]
fn language_list_is_complete() {
    let all = WhisperLanguage::all();
    assert_eq!(all.len(), 10);
    assert_eq!(all[0], WhisperLanguage::Unknown);
    assert_eq!(all[9], WhisperLanguage::Custom);
    assert_eq!(WhisperLanguage::default(), WhisperLanguage::Unknown);
}

#[test]
fn pid_is_the_second_column() {
    assert_eq!(
        extract_pid_from_ps_line("user  1234  0.0  whisper audio.wav"),
        Some(1234)
    );
    assert_eq!(extract_pid_from_ps_line("  root\t42\tkernel"), Some(42));
    assert_eq!(extract_pid_from_ps_line("user"), None);
    assert_eq!(extract_pid_from_ps_line(""), None);
    assert_eq!(extract_pid_from_ps_line("user abc whisper"), None);
    assert_eq!(extract_pid_from_ps_line("user 99999999999 x"), None);
}

#[test]
fn extracted_text_skips_numbers_and_time_lines() {
    let file = "1\n00:00:01,000 --> 00:00:02,000\nHello\nworld\n\n2\n00:00:03,500 --> 00:00:04,000\nAgain\n";
    let lines: Vec<String> = file.lines().map(String::from).collect();
    assert_eq!(extract_text_from_srt(&lines), "Hello world Again");
}

#[test]
fn extracted_text_of_empty_file_is_empty() {
    let lines: Vec<String> = Vec::new();
    assert_eq!(extract_text_from_srt(&lines), "");
    let blank: Vec<String> = vec![String::from(""), String::from("   ")];
    assert_eq!(extract_text_from_srt(&blank), "");
}
