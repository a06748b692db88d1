use photo_sorter::entry::{extension_key, FileEntry};
use photo_sorter::metadata::{date_from_field, read_capture_date, MetadataError};
use photo_sorter::pipeline::{check_start, outcome_of, plan_file, plan_for_reading, Plan, StartError};
use photo_sorter::quarter::month_to_quarter;
use photo_sorter::router::{target_dir, CaptureDate};
use photo_sorter::stats::{ExtensionCounts, Outcome, RunStats};
use photo_sorter::text::to_decimal;

/// A big-endian TIFF block; with `date`, its Exif IFD holds a
/// DateTimeOriginal field of that text.
fn tiff(date: Option<&[u8]>) -> Vec<u8> {
    let mut t: Vec<u8> = vec![b'M', b'M', 0, 42, 0, 0, 0, 8];
    match date {
        Some(d) => {
            // IFD0: one entry pointing at the Exif IFD at offset 26.
            t.extend_from_slice(&[0, 1, 0x87, 0x69, 0, 4, 0, 0, 0, 1, 0, 0, 0, 26, 0, 0, 0, 0]);
            let count = (d.len() + 1) as u32;
            t.extend_from_slice(&[0, 1, 0x90, 0x03, 0, 2]);
            t.extend_from_slice(&count.to_be_bytes());
            t.extend_from_slice(&[0, 0, 0, 44, 0, 0, 0, 0]);
            t.extend_from_slice(d);
            t.push(0);
        }
        None => {
            // IFD0: one ImageWidth entry.
            t.extend_from_slice(&[0, 1, 0x01, 0x00, 0, 3, 0, 0, 0, 1, 0, 64, 0, 0, 0, 0, 0, 0]);
        }
    }
    t
}

/// A JPEG whose APP1 segment holds `tiff`.
fn jpeg(tiff: &[u8]) -> Vec<u8> {
    let mut j: Vec<u8> = vec![0xff, 0xd8, 0xff, 0xe1];
    let len = (2 + 6 + tiff.len()) as u16;
    j.extend_from_slice(&len.to_be_bytes());
    j.extend_from_slice(b"Exif\0\0");
    j.extend_from_slice(tiff);
    j.extend_from_slice(&[0xff, 0xd9]);
    j
}

fn file(name: &str) -> FileEntry {
    FileEntry { file_name: name.to_string(), is_file: true }
}

fn s(x: &str) -> String {
    x.to_string()
}

#[test]
fn quarters_of_each_month() {
    let labels = ["01 kvartal ⛄", "02 kvartal 🌺", "03 kvartal 🌅", "04 kvartal 🍁"];
    for m in 1u8..=12 {
        let q = month_to_quarter(m);
        assert_eq!(q, labels[((m - 1) / 3) as usize]);
        assert_eq!(q, month_to_quarter(m));
    }
    assert_eq!(month_to_quarter(0), "unknown");
    assert_eq!(month_to_quarter(13), "unknown");
    assert_eq!(month_to_quarter(255), "unknown");
}

#[test]
fn dated_route() {
    let d = CaptureDate::new(2023, 7).unwrap();
    assert_eq!(target_dir(Some(d)), "sorted/2023/03 kvartal 🌅");
    let d = CaptureDate::new(1999, 12).unwrap();
    assert_eq!(target_dir(Some(d)), "sorted/1999/04 kvartal 🍁");
    let d = CaptureDate::new(2000, 1).unwrap();
    assert_eq!(target_dir(Some(d)), "sorted/2000/01 kvartal ⛄");
    let d = CaptureDate::new(7, 4).unwrap();
    assert_eq!(target_dir(Some(d)), "sorted/7/02 kvartal 🌺");
}

#[test]
fn undated_route() {
    assert_eq!(target_dir(None), "sorted/date-unknown");
}

#[test]
fn capture_date_needs_a_month() {
    assert!(CaptureDate::new(2023, 0).is_none());
    assert!(CaptureDate::new(2023, 13).is_none());
    assert_eq!(CaptureDate::new(2023, 12), Some(CaptureDate { year: 2023, month: 12 }));
}

#[test]
fn decimal_notation() {
    assert_eq!(to_decimal(0), "0");
    assert_eq!(to_decimal(7), "7");
    assert_eq!(to_decimal(2023), "2023");
    assert_eq!(to_decimal(u64::MAX), "18446744073709551615");
}

#[test]
fn date_from_field_text() {
    let d = date_from_field(Some(b"2023:07:15 10:20:30".to_vec()));
    assert_eq!(d, Some(CaptureDate { year: 2023, month: 7 }));
    let d = date_from_field(Some(b"1987:11:02 00:00:00 extra".to_vec()));
    assert_eq!(d, Some(CaptureDate { year: 1987, month: 11 }));
    assert_eq!(date_from_field(Some(b"2023:13:15 10:20:30".to_vec())), None);
    assert_eq!(date_from_field(Some(b"2023:00:15 10:20:30".to_vec())), None);
    assert_eq!(date_from_field(Some(b"2023-07-15 10:20:30".to_vec())), None);
    assert_eq!(date_from_field(Some(b"2023:07:15".to_vec())), None);
    assert_eq!(date_from_field(Some(b"    :  :     :  :  ".to_vec())), None);
    assert_eq!(date_from_field(Some(b"20x3:07:15 10:20:30".to_vec())), None);
    assert_eq!(date_from_field(None), None);
}

#[test]
fn capture_date_from_tiff_and_jpeg() {
    let t = tiff(Some(b"2023:07:15 10:20:30"));
    assert_eq!(read_capture_date(&t), Ok(Some(CaptureDate { year: 2023, month: 7 })));
    let j = jpeg(&tiff(Some(b"2019:02:01 08:00:00")));
    assert_eq!(read_capture_date(&j), Ok(Some(CaptureDate { year: 2019, month: 2 })));
}

#[test]
fn container_without_date_field() {
    assert_eq!(read_capture_date(&tiff(None)), Ok(None));
    let t = tiff(Some(b"not a date at all!!"));
    assert_eq!(read_capture_date(&t), Ok(None));
}

#[test]
fn undecodable_container() {
    assert_eq!(read_capture_date(b"plain text, no image"), Err(MetadataError::Undecodable));
    assert_eq!(read_capture_date(&[0xff, 0xd8, 0xff, 0xe1, 0x00]), Err(MetadataError::Undecodable));
    assert_eq!(read_capture_date(&[]), Err(MetadataError::Undecodable));
}

#[test]
fn extension_keys() {
    assert_eq!(extension_key("IMG_0001.JPG"), "jpg");
    assert_eq!(extension_key("clip.MoV"), "mov");
    assert_eq!(extension_key("archive.tar.gz"), "gz");
    assert_eq!(extension_key("README"), "unknown");
    assert_eq!(extension_key(".hidden"), "unknown");
    assert_eq!(extension_key("trailing."), "");
    assert_eq!(extension_key("bilde.ÆØÅ"), "ÆØÅ");
    assert_eq!(extension_key("Foto.JpEg"), "jpeg");
}

#[test]
fn non_regular_entries_are_ignored() {
    let dir = FileEntry { file_name: s("holiday.jpg"), is_file: false };
    let t = tiff(Some(b"2023:07:15 10:20:30"));
    assert_eq!(plan_file(&dir, Some(&t)), Plan::Ignore);
    assert_eq!(outcome_of(&Plan::Ignore, true), None);
}

#[test]
fn dated_jpeg_is_moved() {
    let bytes = jpeg(&tiff(Some(b"2023:07:15 12:00:00")));
    let plan = plan_file(&file("IMG_1.JPG"), Some(&bytes));
    assert_eq!(
        plan,
        Plan::Copy { extension: s("jpg"), target_dir: s("sorted/2023/03 kvartal 🌅") }
    );
    let mut stats = RunStats::new();
    let o = outcome_of(&plan, true).unwrap();
    assert_eq!(o, Outcome::Moved(s("jpg")));
    stats.record(&o);
    assert_eq!(stats.moved_count(&s("jpg")), 1);
    assert_eq!(stats.skipped_count(&s("jpg")), 0);
    assert_eq!(stats.visited(), 1);
}

#[test]
fn undated_video_is_moved_to_unknown() {
    let bytes = tiff(None);
    let plan = plan_file(&file("clip.mov"), Some(&bytes));
    assert_eq!(plan, Plan::Copy { extension: s("mov"), target_dir: s("sorted/date-unknown") });
    let mut stats = RunStats::new();
    stats.record(&outcome_of(&plan, true).unwrap());
    assert_eq!(stats.moved_count(&s("mov")), 1);
    assert_eq!(stats.skipped_count(&s("mov")), 0);
}

#[test]
fn corrupted_image_is_skipped() {
    let bytes: Vec<u8> = vec![0xff, 0xd8, 0xff, 0xe1, 0x00, 0x10, 0x45];
    let plan = plan_file(&file("broken.jpg"), Some(&bytes));
    assert_eq!(plan, Plan::Skip(s("jpg")));
    let mut stats = RunStats::new();
    stats.record(&outcome_of(&plan, true).unwrap());
    assert_eq!(stats.skipped_count(&s("jpg")), 1);
    assert_eq!(stats.moved_count(&s("jpg")), 0);
}

#[test]
fn unreadable_file_is_skipped() {
    assert_eq!(plan_file(&file("locked.png"), None), Plan::Skip(s("png")));
}

#[test]
fn plan_from_reading() {
    let e = file("a.HEIC");
    assert_eq!(plan_for_reading(&e, Err(MetadataError::Undecodable)), Plan::Skip(s("heic")));
    assert_eq!(
        plan_for_reading(&e, Ok(None)),
        Plan::Copy { extension: s("heic"), target_dir: s("sorted/date-unknown") }
    );
    assert_eq!(
        plan_for_reading(&e, Ok(Some(CaptureDate { year: 2021, month: 5 }))),
        Plan::Copy { extension: s("heic"), target_dir: s("sorted/2021/02 kvartal 🌺") }
    );
}

#[test]
fn failed_copy_is_not_moved() {
    let plan = Plan::Copy { extension: s("jpg"), target_dir: s("sorted/date-unknown") };
    assert_eq!(outcome_of(&plan, false), Some(Outcome::CopyFailed));
    let mut stats = RunStats::new();
    stats.record(&Outcome::CopyFailed);
    assert_eq!(stats.moved_count(&s("jpg")), 0);
    assert_eq!(stats.copy_failures(), 1);
    assert_eq!(stats.visited(), 1);
}

#[test]
fn every_file_counted_once() {
    let mut stats = RunStats::new();
    let outcomes = vec![
        Outcome::Moved(s("jpg")),
        Outcome::Skipped(s("jpg")),
        Outcome::CopyFailed,
        Outcome::Moved(s("png")),
        Outcome::Moved(s("jpg")),
        Outcome::Skipped(s("mov")),
    ];
    for o in &outcomes {
        stats.record(o);
    }
    let skipped = stats.skipped_count(&s("jpg")) + stats.skipped_count(&s("mov"));
    let moved = stats.moved_count(&s("jpg")) + stats.moved_count(&s("png"));
    assert_eq!(skipped, 2);
    assert_eq!(moved, 3);
    assert_eq!(skipped + moved + stats.copy_failures(), stats.visited());
    assert_eq!(stats.visited(), 6);
}

#[test]
fn extension_counts_by_key() {
    let mut c = ExtensionCounts::new();
    c.increment(&s("jpg"));
    c.increment(&s("png"));
    c.increment(&s("jpg"));
    assert_eq!(c.len(), 2);
    assert_eq!(c.count(&s("jpg")), 2);
    assert_eq!(c.count(&s("png")), 1);
    assert_eq!(c.count(&s("gif")), 0);
    assert_eq!(c.get(0), (&s("jpg"), 2));
}

#[test]
fn summary_sections() {
    let mut stats = RunStats::new();
    assert!(stats.summary_lines().is_empty());
    stats.record(&Outcome::Moved(s("jpg")));
    stats.record(&Outcome::Moved(s("jpg")));
    assert_eq!(
        stats.summary_lines(),
        vec![s("Moved:"), s("  2 .jpg files"), s("========================")]
    );
    stats.record(&Outcome::Skipped(s("mov")));
    stats.record(&Outcome::CopyFailed);
    assert_eq!(
        stats.summary_lines(),
        vec![
            s("Skipped:"),
            s("  1 .mov files"),
            s("========================"),
            s("Moved:"),
            s("  2 .jpg files"),
            s("========================"),
        ]
    );
}

#[test]
fn missing_input_root_is_fatal() {
    assert_eq!(check_start(false, false), Err(StartError::InputMissing));
    assert_eq!(check_start(false, true), Err(StartError::InputMissing));
}

#[test]
fn second_run_fails_fast() {
    assert_eq!(check_start(true, false), Ok(()));
    assert_eq!(check_start(true, true), Err(StartError::OutputExists));
}
