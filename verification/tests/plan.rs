use skybox::plan::SlicePlan;

#[test]
fn plan_of_a_single_slice() {
    let plan = SlicePlan::new(4, 4, 6, 1, false).unwrap();
    assert_eq!(plan.slice_count(), 1);
    assert_eq!(plan.slice_height(), 4);
    assert_eq!(plan.slice_length(), 96);
    assert_eq!(plan.image_length(), 96);
    assert_eq!(plan.start_row(0), 0);
    assert_eq!(plan.byte_offset(0), 0);
}

#[test]
fn plan_needs_a_slice() {
    assert!(SlicePlan::new(4, 4, 6, 0, false).is_none());
    assert!(SlicePlan::new(4, 4, 6, 0, true).is_none());
}

#[test]
fn plan_side_by_side_needs_even_rows() {
    assert!(SlicePlan::new(4, 10, 6, 3, true).is_none());
    assert!(SlicePlan::new(4, 9, 6, 3, true).is_some());
    assert!(SlicePlan::new(4, 10, 6, 3, false).is_some());
}

#[test]
fn plan_rejects_images_too_large_to_count() {
    assert!(SlicePlan::new(usize::MAX, 2, 6, 1, false).is_none());
    assert!(SlicePlan::new(usize::MAX / 6 + 1, 1, 6, 1, false).is_none());
    assert!(SlicePlan::new(usize::MAX, 2, 0, 1, false).is_none());
    assert!(SlicePlan::new(usize::MAX / 6, 1, 6, 1, false).is_some());
}

#[test]
fn plan_uneven_rows_leave_a_remainder() {
    let plan = SlicePlan::new(4, 10, 6, 3, false).unwrap();
    assert_eq!(plan.slice_height(), 3);
    assert_eq!(plan.slice_length(), 72);
    assert_eq!(plan.image_length(), 240);
    assert_eq!(
        (0..3).map(|i| plan.start_row(i)).collect::<Vec<usize>>(),
        vec![0, 3, 6]
    );
    assert_eq!(
        (0..3).map(|i| plan.byte_offset(i)).collect::<Vec<usize>>(),
        vec![0, 72, 144]
    );
}

#[test]
fn plan_even_rows_cover_the_image() {
    for (w, h, n) in [(4usize, 4usize, 1usize), (4, 4, 2), (4, 4, 4), (16, 12, 3), (1, 7, 7)] {
        let plan = SlicePlan::new(w, h, 6, n, true).unwrap();
        assert_eq!(plan.slice_count() * plan.slice_height(), h);
        assert_eq!(plan.slice_count() * plan.slice_length(), plan.image_length());
        assert_eq!(plan.byte_offset(n - 1) + plan.slice_length(), plan.image_length());
    }
}

#[test]
fn plan_layout_follows_the_plan() {
    let plan = SlicePlan::new(8, 6, 6, 2, true).unwrap();
    let layout = plan.layout().unwrap();
    assert_eq!(layout.slice_length(), 144);
    assert_eq!(layout.pixel_count(), 24);
    assert!(SlicePlan::new(8, 6, 5, 2, true).unwrap().layout().is_none());
    assert!(SlicePlan::new(0, 6, 5, 2, true).unwrap().layout().is_some());
}

#[test]
fn plan_pixels_land_row_major_whatever_the_slicing() {
    let (w, h) = (6usize, 12usize);
    for n in [1usize, 2, 3, 4, 6, 12] {
        let plan = SlicePlan::new(w, h, 6, n, true).unwrap();
        let layout = plan.layout().unwrap();
        for slice in 0..n {
            for index in 0..layout.pixel_count() {
                let (px, py) = layout.pixel_position(index, plan.start_row(slice));
                assert_eq!(plan.byte_offset(slice) + index * 6, (py * w + px) * 6);
            }
        }
    }
}

#[test]
fn blank_image_is_all_zero() {
    let plan = SlicePlan::new(3, 5, 6, 5, true).unwrap();
    assert_eq!(plan.blank_image(), vec![0u8; 90]);
}

#[test]
fn place_slice_writes_its_own_range() {
    let plan = SlicePlan::new(1, 3, 6, 3, true).unwrap();
    let mut img = plan.blank_image();
    plan.place_slice(&mut img, 1, &[1, 2, 3, 4, 5, 6]);
    assert_eq!(img, vec![0, 0, 0, 0, 0, 0, 1, 2, 3, 4, 5, 6, 0, 0, 0, 0, 0, 0]);
    plan.place_slice(&mut img, 2, &[9; 6]);
    plan.place_slice(&mut img, 0, &[8; 6]);
    assert_eq!(img, vec![8, 8, 8, 8, 8, 8, 1, 2, 3, 4, 5, 6, 9, 9, 9, 9, 9, 9]);
}

#[test]
fn place_slice_in_any_order_gives_the_same_image() {
    let plan = SlicePlan::new(2, 8, 6, 4, true).unwrap();
    let slices: Vec<Vec<u8>> = (0..4u8)
        .map(|s| (0..plan.slice_length()).map(|t| s * 50 + t as u8).collect())
        .collect();
    let mut in_order = plan.blank_image();
    for i in 0..4 {
        plan.place_slice(&mut in_order, i, &slices[i]);
    }
    for order in [[3usize, 2, 1, 0], [2, 0, 3, 1], [1, 3, 0, 2]] {
        let mut img = plan.blank_image();
        for &i in &order {
            plan.place_slice(&mut img, i, &slices[i]);
        }
        assert_eq!(img, in_order);
    }
    assert_eq!(in_order, slices.concat());
}

#[test]
fn place_slice_leaves_uncovered_rows_untouched() {
    let plan = SlicePlan::new(1, 5, 6, 2, false).unwrap();
    let mut img = plan.blank_image();
    plan.place_slice(&mut img, 0, &[1; 12]);
    plan.place_slice(&mut img, 1, &[2; 12]);
    let mut expected = vec![1u8; 12];
    expected.extend_from_slice(&[2; 12]);
    expected.extend_from_slice(&[0; 6]);
    assert_eq!(img, expected);
}
