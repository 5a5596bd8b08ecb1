use std::io::Write;
use gw2ei::model::error::ModelError;
use gw2ei::parse::container::{check_archive_entries, check_decompressed_size, container_of, decompress_log, LogContainer};
use gw2ei::parse::error::EvtcError;
use gw2ei::parse::models::ParserSettings;

#[test]
fn containers_by_extension() {
    assert_eq!(container_of("fight.evtc"), Ok(LogContainer::Plain));
    assert_eq!(container_of("fight.zevtc"), Ok(LogContainer::Compressed));
    assert_eq!(container_of("fight.evtc.zip"), Ok(LogContainer::Compressed));
    assert_eq!(container_of("fight.zip"), Err(EvtcError::NotEvtc));
    assert_eq!(container_of("evtc"), Err(EvtcError::NotEvtc));
}

#[test]
fn archive_checks() {
    assert_eq!(check_archive_entries(1), Ok(()));
    assert_eq!(check_archive_entries(0), Err(EvtcError::InvalidArchive));
    assert_eq!(check_archive_entries(2), Err(EvtcError::InvalidArchive));
    let settings = ParserSettings::default();
    assert_eq!(check_decompressed_size(100 * 1024 * 1024 + 5, &settings), Ok(()));
    assert_eq!(
        check_decompressed_size(101 * 1024 * 1024, &settings),
        Err(EvtcError::TooBig { size: 101, limit: 100 })
    );
}

#[test]
fn model_error_messages() {
    assert_eq!(ModelError::NoPlayersFound.message(), "No players found");
    assert_eq!(
        ModelError::UnsupportedEncounter { trigger_id: 42 }.message(),
        "trigger id 42 does not resolve to the WvW path; boss/instance encounter logic is not supported"
    );
    assert!(ModelError::UnsupportedArcBuild { build: -3 }.message().starts_with("ArcDPS build -3 is below"));
    assert_eq!(ModelError::ParseError("x".to_string()).message(), "parse error: x");
}

fn make_zip(entries: &[(&str, &[u8])]) -> Vec<u8> {
    let mut writer = zip::ZipWriter::new(std::io::Cursor::new(Vec::new()));
    for (name, data) in entries {
        writer.start_file(*name, zip::write::SimpleFileOptions::default()).expect("start file");
        writer.write_all(data).expect("write entry");
    }
    writer.finish().expect("finish zip").into_inner()
}

#[test]
fn decompress_single_entry() {
    let settings = ParserSettings::default();
    let archive = make_zip(&[("20260530-205048", b"EVTC20260507")]);
    assert_eq!(decompress_log(&archive, &settings), Ok(b"EVTC20260507".to_vec()));
}

#[test]
fn decompress_refuses_two_entries() {
    let settings = ParserSettings::default();
    let archive = make_zip(&[("a", b"EVTC"), ("b", b"EVTC")]);
    assert_eq!(decompress_log(&archive, &settings), Err(EvtcError::InvalidArchive));
}

#[test]
fn decompress_refuses_non_archive() {
    let settings = ParserSettings::default();
    assert!(matches!(decompress_log(b"not a zip archive", &settings), Err(EvtcError::Zip { .. })));
}
