use reconstruction::request_plan::{create_request_plan, draw_request_count, plan_request, request_options, signal_type_range, ImgData};

#[test]
fn options_table() {
    let o = request_options();
    let got: Vec<(String, i32)> = o.into_iter().map(|d| (d.file_name, d.file_size)).collect();
    assert_eq!(
        got,
        vec![
            ("./Data/G-60-1.csv".to_string(), 60),
            ("./Data/G-60-2.csv".to_string(), 60),
            ("./Data/G-30-2.csv".to_string(), 30),
            ("./Data/G-30-2.csv".to_string(), 30),
        ]
    );
}

#[test]
fn signal_ranges() {
    assert_eq!(signal_type_range(30), (1, 3));
    assert_eq!(signal_type_range(1), (3, 5));
    assert_eq!(signal_type_range(2), (3, 5));
}

#[test]
fn plan_with_gain() {
    let option = ImgData { file_name: "./Data/G-30-2.csv".to_string(), file_size: 30 };
    let p = plan_request(1, 4, 2, &option);
    assert_eq!((p.algorithm, p.signal_type, p.matrix_type, p.size), (2, 4, 1, 30));
    assert_eq!(p.file_name, "./Data/G-30-2.csv");
    assert_eq!(p.gain_segment, Some(436));
    let option = ImgData { file_name: "./Data/G-60-1.csv".to_string(), file_size: 60 };
    assert_eq!(plan_request(1, 3, 1, &option).gain_segment, Some(794));
}

#[test]
fn plan_without_gain() {
    let option = ImgData { file_name: "./Data/G-60-2.csv".to_string(), file_size: 60 };
    let p = plan_request(2, 3, 1, &option);
    assert_eq!(p.gain_segment, None);
    assert_eq!(p.size, 60);
}

#[test]
fn random_plans_stay_in_range() {
    for _ in 0..200 {
        let p = create_request_plan();
        assert!((1..3).contains(&p.matrix_type));
        assert!((3..5).contains(&p.signal_type));
        assert!((1..3).contains(&p.algorithm));
        assert!(p.size == 30 || p.size == 60);
        if p.size == 60 {
            assert!(p.file_name == "./Data/G-60-1.csv" || p.file_name == "./Data/G-60-2.csv");
        } else {
            assert_eq!(p.file_name, "./Data/G-30-2.csv");
        }
        let expected = if p.matrix_type == 1 { Some(if p.size == 30 { 436 } else { 794 }) } else { None };
        assert_eq!(p.gain_segment, expected);
    }
}

#[test]
fn request_counts_in_range() {
    let mut seen = [false; 10];
    for _ in 0..2000 {
        let n = draw_request_count();
        assert!((0..10).contains(&n));
        seen[n as usize] = true;
    }
    assert!(seen.iter().filter(|b| **b).count() > 1);
}
