use reconstruction::dispatch::{
    keep_iterating, parse_algorithm_name, request_priority, select_job, Job, MAX_SOLVER_ITERATIONS,
};
use reconstruction::models::{gain_segment, Alghorithm, ImageSize, SIGNAL_BLOCKS};

#[test]
fn small_images_get_higher_priority() {
    assert_eq!(request_priority(30), 2);
    assert_eq!(request_priority(60), 1);
    assert_eq!(request_priority(0), 1);
    assert_eq!(request_priority(-30), 1);
}

#[test]
fn select_job_supported_pairs() {
    assert_eq!(select_job(1, 60), Some(Job { algorithm: Alghorithm::CGNE, size: ImageSize::Medium }));
    assert_eq!(select_job(2, 60), Some(Job { algorithm: Alghorithm::CGNR, size: ImageSize::Medium }));
    assert_eq!(select_job(1, 30), Some(Job { algorithm: Alghorithm::CGNE, size: ImageSize::Small }));
    assert_eq!(select_job(2, 30), Some(Job { algorithm: Alghorithm::CGNR, size: ImageSize::Small }));
}

#[test]
fn select_job_unsupported() {
    assert_eq!(select_job(3, 60), None);
    assert_eq!(select_job(0, 30), None);
    assert_eq!(select_job(1, 45), None);
    assert_eq!(select_job(2, 0), None);
}

#[test]
fn selected_size_has_requested_side() {
    for alg in [1, 2] {
        for side in [30, 60] {
            let job = select_job(alg, side).unwrap();
            assert_eq!(job.size.side() as i32, side);
            assert_eq!(ImageSize::from_side(side), Some(job.size));
        }
    }
}

#[test]
fn parse_known_algorithm_names() {
    assert_eq!(parse_algorithm_name("cgne"), Ok(Alghorithm::CGNE));
    assert_eq!(parse_algorithm_name("cgnr"), Ok(Alghorithm::CGNR));
}

#[test]
fn parse_unknown_algorithm_name() {
    assert_eq!(parse_algorithm_name("CGNE"), Err("Unsupported algorithm type: CGNE".to_string()));
    assert_eq!(parse_algorithm_name(""), Err("Unsupported algorithm type: ".to_string()));
    assert_eq!(parse_algorithm_name("cgnex"), Err("Unsupported algorithm type: cgnex".to_string()));
}

#[test]
fn algorithm_name_round_trip_concrete() {
    for a in [Alghorithm::CGNE, Alghorithm::CGNR] {
        assert_eq!(parse_algorithm_name(a.name()), Ok(a));
    }
    assert_eq!(Alghorithm::CGNE.name(), "cgne");
    assert_eq!(Alghorithm::CGNR.name(), "cgnr");
}

#[test]
fn solver_iteration_budget() {
    assert!(keep_iterating(true, 0));
    assert!(keep_iterating(true, 29));
    assert!(!keep_iterating(true, 30));
    assert!(!keep_iterating(false, 0));
    assert_eq!(MAX_SOLVER_ITERATIONS, 30);
    let mut n = 0;
    while keep_iterating(true, n) {
        n += 1;
    }
    assert_eq!(n, 30);
}

#[test]
fn image_geometry() {
    assert_eq!(ImageSize::Small.side(), 30);
    assert_eq!(ImageSize::Medium.side(), 60);
    assert_eq!(ImageSize::Small.matrix_rows(), 27904);
    assert_eq!(ImageSize::Medium.matrix_rows(), 50816);
    assert_eq!(ImageSize::Small.matrix_cols(), 900);
    assert_eq!(ImageSize::Medium.matrix_cols(), 3600);
    assert_eq!(ImageSize::Small.matrix_file(), "./src/Data/H-2.csv");
    assert_eq!(ImageSize::Medium.matrix_file(), "./src/Data/H-1.csv");
    assert_eq!(ImageSize::from_side(30), Some(ImageSize::Small));
    assert_eq!(ImageSize::from_side(60), Some(ImageSize::Medium));
    assert_eq!(ImageSize::from_side(90), None);
}

#[test]
fn matrix_columns_are_pixels_concrete() {
    for size in [ImageSize::Small, ImageSize::Medium] {
        let side = size.side() as usize;
        assert_eq!(size.matrix_cols(), side * side);
    }
}

#[test]
fn signal_fills_matrix_rows_concrete() {
    assert_eq!(gain_segment(30), 436);
    assert_eq!(gain_segment(60), 794);
    assert_eq!(gain_segment(7), 794);
    for side in [30, 60] {
        let size = ImageSize::from_side(side).unwrap();
        assert_eq!(SIGNAL_BLOCKS * gain_segment(side), size.matrix_rows());
    }
}
