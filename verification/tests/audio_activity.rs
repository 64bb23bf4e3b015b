use construction_os::activity::recent_activity;
use construction_os::audio::{decode_wav, DecodeError};
use construction_os::drafts::{ExpenseDraft, InvoiceDraft};
use construction_os::engine::{inference_settings, join_segments};
use construction_os::engine::{transcription_error_message, TranscriptionError};
use construction_os::model_cache::{
    check_download_status, model_filename, model_path_in, model_url, plan_cache_step, CacheStep,
    DownloadError,
};

fn wav_bytes(samples: &[i16]) -> Vec<u8> {
    let spec = hound::WavSpec {
        channels: 1,
        sample_rate: 16000,
        bits_per_sample: 16,
        sample_format: hound::SampleFormat::Int,
    };
    let mut cursor = std::io::Cursor::new(Vec::new());
    {
        let mut writer = hound::WavWriter::new(&mut cursor, spec).unwrap();
        for s in samples {
            writer.write_sample(*s).unwrap();
        }
        writer.finalize().unwrap();
    }
    cursor.into_inner()
}

#[test]
fn a_pcm_container_round_trips_through_the_decoder() {
    let samples = [0i16, 1, -1, 32767, -32768, 12345, -12345];
    let bytes = wav_bytes(&samples);
    let decoded = decode_wav(&bytes).unwrap();
    assert_eq!(decoded, samples.to_vec());
    assert_eq!(decode_wav(&wav_bytes(&[])), Ok(Vec::new()));
}

#[test]
fn rescaled_samples_stay_inside_the_unit_range() {
    let samples = [32767i16, -32768, 0, 777, -777];
    let bytes = wav_bytes(&samples);
    let decoded = decode_wav(&bytes).unwrap();
    for s in decoded {
        let f = s as f32 / 32768.0;
        assert!(f >= -1.0 && f < 1.0);
    }
}

#[test]
fn rescaling_divides_by_the_fixed_constant() {
    let bytes = wav_bytes(&[16384i16, -32768, 0]);
    let decoded = decode_wav(&bytes).unwrap();
    let rescaled: Vec<f32> = decoded.iter().map(|&s| s as f32 / 32768.0).collect();
    assert_eq!(rescaled, vec![0.5, -1.0, 0.0]);
}

#[test]
fn a_malformed_header_is_rejected() {
    assert_eq!(decode_wav(&Vec::new()), Err(DecodeError::MalformedHeader));
    assert_eq!(
        decode_wav(&vec![0u8; 64]),
        Err(DecodeError::MalformedHeader)
    );
    let mut bytes = wav_bytes(&[1i16, 2]);
    bytes[0] = b'X';
    assert_eq!(decode_wav(&bytes), Err(DecodeError::MalformedHeader));
}

#[test]
fn a_float_encoded_container_is_unsupported() {
    let spec = hound::WavSpec {
        channels: 1,
        sample_rate: 16000,
        bits_per_sample: 32,
        sample_format: hound::SampleFormat::Float,
    };
    let mut cursor = std::io::Cursor::new(Vec::new());
    {
        let mut writer = hound::WavWriter::new(&mut cursor, spec).unwrap();
        writer.write_sample(0.5f32).unwrap();
        writer.finalize().unwrap();
    }
    let bytes = cursor.into_inner();
    assert_eq!(decode_wav(&bytes), Err(DecodeError::UnsupportedEncoding));
}

#[test]
fn a_trailing_half_sample_reads_as_zero() {
    let mut bytes: Vec<u8> = Vec::new();
    bytes.extend_from_slice(b"RIFF");
    bytes.extend_from_slice(&39u32.to_le_bytes());
    bytes.extend_from_slice(b"WAVE");
    bytes.extend_from_slice(b"fmt ");
    bytes.extend_from_slice(&16u32.to_le_bytes());
    bytes.extend_from_slice(&1u16.to_le_bytes()); // PCM
    bytes.extend_from_slice(&1u16.to_le_bytes()); // mono
    bytes.extend_from_slice(&16000u32.to_le_bytes());
    bytes.extend_from_slice(&32000u32.to_le_bytes());
    bytes.extend_from_slice(&2u16.to_le_bytes());
    bytes.extend_from_slice(&16u16.to_le_bytes()); // 16 bits
    bytes.extend_from_slice(b"data");
    bytes.extend_from_slice(&3u32.to_le_bytes());
    bytes.extend_from_slice(&[0x01, 0x02, 0x03]);
    let decoded = decode_wav(&bytes).unwrap();
    assert_eq!(decoded, vec![0x0201, 0]);
}

#[test]
fn segments_are_joined_with_single_spaces_and_trimmed() {
    assert_eq!(join_segments(&Vec::new()), "");
    assert_eq!(join_segments(&vec![String::from(" Hello")]), "Hello");
    assert_eq!(
        join_segments(&vec![String::from(" Hello"), String::from(" world.")]),
        "Hello  world."
    );
    assert_eq!(
        join_segments(&vec![String::from("a"), String::from("b")]),
        "a b"
    );
}

#[test]
fn the_engine_settings_are_fixed_and_deterministic() {
    let s = inference_settings();
    assert_eq!(s.greedy_best_of, 1);
    assert_eq!(s.language, "en");
    assert!(!s.print_special);
    assert!(!s.print_progress);
}

fn invoice(id: &str, status: &str) -> InvoiceDraft {
    InvoiceDraft {
        id: String::from(id),
        client: String::from("Mike"),
        amount_cents: 500000,
        status: String::from(status),
        description: String::from("Work"),
        client_phone: None,
        client_company: None,
        pdf_path: None,
    }
}

fn expense(id: &str, status: &str) -> ExpenseDraft {
    ExpenseDraft {
        id: String::from(id),
        merchant: String::from("Depot"),
        amount_cents: 2500,
        category: String::from("Tools"),
        date: String::from("2024-04-01"),
        image_path: None,
        status: String::from(status),
    }
}

#[test]
fn recent_activity_orders_newest_first_and_skips_drafts() {
    let invoices = vec![invoice("INV-100", "GENERATED"), invoice("INV-300", "DRAFT")];
    let expenses = vec![expense("EXP-200", "PENDING")];
    let feed = recent_activity(&invoices, &expenses);
    assert_eq!(feed.len(), 2);
    assert_eq!(feed[0].id, "EXP-200");
    assert_eq!(feed[0].intent, "EXPENSE");
    assert_eq!(feed[0].description, "Depot (Tools)");
    assert_eq!(feed[0].date, "2024-04-01");
    assert_eq!(feed[1].id, "INV-100");
    assert_eq!(feed[1].intent, "INVOICE");
    assert_eq!(feed[1].timestamp, 100);
}

#[test]
fn recent_activity_keeps_only_the_five_most_recent() {
    let invoices = vec![
        invoice("INV-10", "GENERATED"),
        invoice("INV-60", "GENERATED"),
        invoice("INV-30", "GENERATED"),
        invoice("INV-junk", "GENERATED"),
    ];
    let expenses = vec![
        expense("EXP-50", "PENDING"),
        expense("EXP-20", "PENDING"),
        expense("EXP-40", "PENDING"),
    ];
    let feed = recent_activity(&invoices, &expenses);
    assert_eq!(feed.len(), 5);
    let ids: Vec<&str> = feed.iter().map(|i| i.id.as_str()).collect();
    assert_eq!(ids, vec!["INV-60", "EXP-50", "EXP-40", "INV-30", "EXP-20"]);
    // The unparsable id counts as the oldest and fell off the feed.
    assert_eq!(feed.iter().filter(|i| i.id == "INV-junk").count(), 0);
}

#[test]
fn an_unparsable_invoice_id_reads_an_unknown_date() {
    let invoices = vec![invoice("INV-junk", "GENERATED")];
    let feed = recent_activity(&invoices, &Vec::new());
    assert_eq!(feed.len(), 1);
    assert_eq!(feed[0].timestamp, 0);
    assert_eq!(feed[0].date, "Unknown");
}

#[test]
fn a_present_model_file_is_reused_without_a_download() {
    // First run: the file is absent, so the plan is one download.
    assert_eq!(plan_cache_step(false), CacheStep::Download);
    // Second run, the file now present: the cache is used, no download.
    assert_eq!(plan_cache_step(true), CacheStep::UseCached);
    // The resolved path is the same on both runs.
    let first = model_path_in("/data/app", "/");
    let second = model_path_in("/data/app", "/");
    assert_eq!(first, second);
    assert_eq!(first, "/data/app/models/ggml-base.en.bin");
    assert_eq!(model_filename(), "ggml-base.en.bin");
    assert!(model_url().ends_with(model_filename()));
}

#[test]
fn only_http_success_statuses_accept_a_download() {
    assert_eq!(check_download_status(200), Ok(()));
    assert_eq!(check_download_status(299), Ok(()));
    assert_eq!(check_download_status(199), Err(DownloadError { status: 199 }));
    assert_eq!(check_download_status(300), Err(DownloadError { status: 300 }));
    assert_eq!(check_download_status(404), Err(DownloadError { status: 404 }));
    assert_eq!(check_download_status(500), Err(DownloadError { status: 500 }));
}

#[test]
fn each_transcription_failure_has_its_message() {
    assert_eq!(
        transcription_error_message(TranscriptionError::ModelLoad),
        "Failed to load model"
    );
    assert_eq!(
        transcription_error_message(TranscriptionError::Inference),
        "failed to run model"
    );
}
