use youtube_downloader_gui::progress::{
    extract_bytes, extract_eta, extract_percentage, extract_speed, parse_progress_line, Decimal,
};

fn value(d: Decimal) -> f64 {
    d.mantissa as f64 / 10f64.powi(d.scale as i32)
}

#[test]
fn test_extract_percentage() {
    let line = "[download]  45.8% of 123.45MiB at 1.23MiB/s ETA 00:42";
    assert_eq!(extract_percentage(line).map(value), Some(45.8));

    let line2 = "[download] 100.0% of 50.00MiB at 5.00MiB/s ETA 00:00";
    assert_eq!(extract_percentage(line2).map(value), Some(100.0));

    let line3 = "[download]   0.5% of 1.00GiB at 100.00KiB/s ETA 02:30:00";
    assert_eq!(extract_percentage(line3).map(value), Some(0.5));
}

#[test]
fn test_extract_bytes() {
    let line = "[download]  50.0% of 100.00MiB at 1.00MiB/s ETA 00:50";
    let (downloaded, total) = extract_bytes(line).unwrap();
    assert_eq!(total, 100 * 1024 * 1024);
    assert_eq!(downloaded, 50 * 1024 * 1024);

    let line2 = "[download]  25.0% of 2.00GiB at 10.00MiB/s ETA 05:00";
    let (downloaded2, total2) = extract_bytes(line2).unwrap();
    assert_eq!(total2, 2 * 1024 * 1024 * 1024);
    assert_eq!(downloaded2, (0.25 * 2.0 * 1024.0 * 1024.0 * 1024.0) as u64);

    let line3 = "[download]  10.0% of 500.00KiB at 50.00KiB/s ETA 00:09";
    let (downloaded3, total3) = extract_bytes(line3).unwrap();
    assert_eq!(total3, 500 * 1024);
    assert_eq!(downloaded3, 50 * 1024);
}

#[test]
fn test_extract_speed() {
    let line = "[download]  50.0% of 100.00MiB at 5.50MiB/s ETA 00:09";
    let speed = extract_speed(line).unwrap();
    assert_eq!(speed as f64, 5.5 * 1024.0 * 1024.0);

    let line2 = "[download]  25.0% of 10.00MiB at 512.00KiB/s ETA 00:15";
    let speed2 = extract_speed(line2).unwrap();
    assert_eq!(speed2 as f64, 512.0 * 1024.0);

    let line3 = "[download]  75.0% of 100.00GiB at 1.00GiB/s ETA 00:25";
    let speed3 = extract_speed(line3).unwrap();
    assert_eq!(speed3 as f64, 1.0 * 1024.0 * 1024.0 * 1024.0);
}

#[test]
fn test_extract_eta() {
    let line = "[download]  50.0% of 100.00MiB at 1.00MiB/s ETA 00:50";
    assert_eq!(extract_eta(line), Some(50));

    let line2 = "[download]  25.0% of 100.00MiB at 1.00MiB/s ETA 05:30";
    assert_eq!(extract_eta(line2), Some(5 * 60 + 30));

    let line3 = "[download]   5.0% of 10.00GiB at 1.00MiB/s ETA 02:30:45";
    assert_eq!(extract_eta(line3), Some(2 * 3600 + 30 * 60 + 45));
}

#[test]
fn test_parse_progress_line() {
    let line = "[download]  45.8% of 123.45MiB at 1.23MiB/s ETA 00:42";
    let progress = parse_progress_line(line).unwrap();

    assert_eq!(value(progress.percentage), 45.8);
    assert!(progress.total_bytes > 0);
    assert!(progress.downloaded_bytes > 0);
    assert!(progress.speed > 0);
    assert_eq!(progress.eta, 42);
}

#[test]
fn test_parse_progress_line_no_match() {
    let line = "[youtube] Extracting URL: https://www.youtube.com/watch?v=dQw4w9WgXcQ";
    assert!(parse_progress_line(line).is_none());

    let line2 = "Some random output";
    assert!(parse_progress_line(line2).is_none());
}

#[test]
fn generic_line_reads_exactly() {
    let p = parse_progress_line("[download]  45.8% of 123.45MiB at 1.23MiB/s ETA 00:42").unwrap();
    assert_eq!(p.percentage, Decimal { mantissa: 458, scale: 1 });
    // 123.45 × 1024² = 129,446,707.2, rounded down
    assert_eq!(p.total_bytes, 129_446_707);
    // 45.8% of the total, rounded down
    assert_eq!(p.downloaded_bytes, 129_446_707u64 * 458 / 1000);
    // 1.23 × 1024² = 1,289,748.48, rounded down
    assert_eq!(p.speed, 1_289_748);
    assert_eq!(p.eta, 42);
}

#[test]
fn completion_line_is_one_hundred_percent() {
    let p = parse_progress_line("[download] 100% of 50.00MiB at 5.00MiB/s ETA 00:00").unwrap();
    assert_eq!(value(p.percentage), 100.0);
    assert!(p.is_complete());
    let q = parse_progress_line("[download]  100% of 50.00MiB in 00:10").unwrap();
    assert_eq!(q.percentage, Decimal::whole(100));
}

#[test]
fn destination_and_existing_lines() {
    let p = parse_progress_line("[download] Destination: video.mp4").unwrap();
    assert_eq!(p.percentage, Decimal::whole(0));
    assert_eq!(p.total_bytes, 0);
    let q = parse_progress_line("[download] video.mp4 has already been downloaded").unwrap();
    assert_eq!(q.percentage, Decimal::whole(100));
    assert_eq!(q.speed, 0);
}

#[test]
fn extracting_line_is_not_applicable() {
    assert_eq!(parse_progress_line("[youtube] Extracting URL: ..."), None);
    assert_eq!(parse_progress_line(""), None);
}

#[test]
fn edge_cases_of_the_generic_shape() {
    // no hours group
    assert_eq!(extract_eta("[download]  1.0% of 1.00MiB at 1.00KiB/s ETA 12:34"), Some(754));
    // zero-byte total
    assert_eq!(extract_bytes("[download]  50.0% of 0.00B at 1.00B/s ETA 00:01"), Some((0, 0)));
    // GiB-scale speed
    assert_eq!(extract_speed("[download]  1.0% of 9.00GiB at 2.50GiB/s ETA 00:03"), Some(2_684_354_560));
    // percentage without a decimal point, approximate size
    let p = parse_progress_line("[download]  7% of ~10.00MiB at 1.00MiB/s ETA 00:09").unwrap();
    assert_eq!(p.percentage, Decimal::whole(7));
    assert_eq!(p.total_bytes, 10 * 1024 * 1024);
    assert_eq!(p.downloaded_bytes, 10 * 1024 * 1024 * 7 / 100);
}

#[test]
fn unrecognized_dialects_are_not_applicable() {
    assert_eq!(parse_progress_line("[download]  45.8% of 123.45MiB at Unknown B/s ETA Unknown"), None);
    assert_eq!(parse_progress_line("[download] Downloading item 3 of 10"), None);
    assert_eq!(parse_progress_line("[download]  45.8% of 123.45MB at 1.23MiB/s ETA 00:42"), None);
    assert_eq!(parse_progress_line("[download]  45.8% of 123.45MiB at 1.23MiB/s ETA 00"), None);
    assert_eq!(parse_progress_line("[download] 12345678901234567890.5% of 1.00MiB at 1.00MiB/s ETA 00:01"), None);
}

#[test]
fn percentage_is_the_first_number_before_a_percent_sign() {
    let p = parse_progress_line("[download] x 45.8% of 10.00MiB at 1.00MiB/s ETA 00:10").unwrap();
    assert_eq!(p.percentage, Decimal { mantissa: 458, scale: 1 });
    assert_eq!(extract_percentage("[download] item 3 of 7: 12.5% of 1.00KiB at 1.00B/s ETA 00:01").map(value), Some(12.5));
}
