use buildmeter::manager::OrderRow;
use buildmeter::status::{JobTerminationStatus, OrderInfoResult};
use buildmeter::upload::{
    frame_chunk, is_new_file, millimb_from_bytes, order_info_result, stream_file_name,
    StreamKind,
};

#[test]
fn files_outside_the_upload_are_new() {
    let src = vec!["Makefile".to_string(), "src/main.c".to_string()];
    assert!(!is_new_file(&src, &"Makefile".to_string()));
    assert!(!is_new_file(&src, &"src/main.c".to_string()));
    assert!(is_new_file(&src, &"a.out".to_string()));
    assert!(is_new_file(&src, &"make-stdout.txt".to_string()));
    let empty: Vec<String> = vec![];
    assert!(is_new_file(&empty, &"anything".to_string()));
}

#[test]
fn upload_size_converts_to_thousandths_of_a_megabyte() {
    assert_eq!(millimb_from_bytes(0), 0);
    assert_eq!(millimb_from_bytes(1_048_576), 1_000);
    assert_eq!(millimb_from_bytes(209_715), 199);
    assert_eq!(millimb_from_bytes(524_288), 500);
    assert_eq!(
        millimb_from_bytes(u64::MAX),
        (u64::MAX as u128 * 1_000 / 1_048_576) as u64
    );
}

#[test]
fn stream_names_follow_the_kind() {
    assert_eq!(stream_file_name(StreamKind::Stdout), "make-stdout.txt");
    assert_eq!(stream_file_name(StreamKind::Stderr), "make-stderr.txt");
}

#[test]
fn chunks_carry_their_number_big_endian() {
    assert_eq!(frame_chunk(0, &[]), vec![0, 0, 0, 0, 0, 0, 0, 0]);
    assert_eq!(frame_chunk(1, &[0xaa]), vec![0, 0, 0, 0, 0, 0, 0, 1, 0xaa]);
    assert_eq!(
        frame_chunk(0x0102_0304_0506_0708, b"hi"),
        vec![1, 2, 3, 4, 5, 6, 7, 8, b'h', b'i']
    );
    assert_eq!(frame_chunk(u64::MAX, &[]), vec![0xff; 8]);
}

#[test]
fn running_orders_answer_running() {
    let row = OrderRow::new(1, 2, 100);
    assert_eq!(order_info_result(true, row), Some(OrderInfoResult::Running));
}

#[test]
fn finished_orders_answer_their_record() {
    let mut row = OrderRow::new(1, 2, 100);
    row.finish(JobTerminationStatus::AbnormalTermination("gone".to_string()));
    match order_info_result(false, row) {
        Some(OrderInfoResult::Completed(full)) => {
            assert_eq!(full.created_at_unix_time, 100);
            assert!(full.is_on_disk);
            assert_eq!(
                full.record,
                JobTerminationStatus::AbnormalTermination("gone".to_string())
            );
        }
        other => panic!("expected a completed answer, got {:?}", other),
    }
}

#[test]
fn inconsistent_rows_get_no_answer() {
    let row = OrderRow::new(1, 2, 100);
    assert_eq!(order_info_result(false, row), None);
}
