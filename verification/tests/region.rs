use downtone_level::region::check_region;
use downtone_level::region::region_bytes;
use downtone_level::region::RegionError;

#[test]
fn bounds_within_the_image_are_accepted() {
    assert_eq!(check_region(10, 20, 0, 0, 10, 20), Ok(()));
    assert_eq!(check_region(10, 20, 3, 4, 3, 4), Ok(()));
    assert_eq!(check_region(0, 0, 0, 0, 0, 0), Ok(()));
}

#[test]
fn bounds_in_the_wrong_order_are_refused() {
    assert_eq!(check_region(10, 20, 5, 0, 4, 20), Err(RegionError::FirstXGreater));
    assert_eq!(check_region(10, 20, 0, 7, 10, 6), Err(RegionError::FirstYGreater));
}

#[test]
fn bounds_beyond_the_image_are_refused() {
    assert_eq!(check_region(10, 20, 0, 0, 11, 20), Err(RegionError::ExceedsImage));
    assert_eq!(check_region(10, 20, 0, 0, 10, 21), Err(RegionError::ExceedsImage));
}

#[test]
fn the_first_complaint_is_given() {
    assert_eq!(check_region(10, 20, 50, 9, 40, 8), Err(RegionError::FirstXGreater));
    assert_eq!(check_region(10, 20, 0, 9, 40, 8), Err(RegionError::FirstYGreater));
    assert_eq!(check_region(10, 20, 11, 30, 11, 30), Err(RegionError::ExceedsImage));
}

#[test]
fn bytes_are_kept_by_four_times_their_position() {
    let rgba: Vec<u8> = (0..16).collect();
    // Width 8: byte i stands in column 4 * i % 8 of row 4 * i / 8.
    assert_eq!(region_bytes(&rgba, 8, 0, 0, 8, 8), rgba);
    assert_eq!(region_bytes(&rgba, 8, 0, 0, 4, 8), vec![0, 2, 4, 6, 8, 10, 12, 14]);
    assert_eq!(region_bytes(&rgba, 8, 4, 0, 8, 8), vec![1, 3, 5, 7, 9, 11, 13, 15]);
    assert_eq!(region_bytes(&rgba, 8, 0, 1, 8, 3), vec![2, 3, 4, 5]);
    assert_eq!(region_bytes(&rgba, 8, 4, 7, 5, 8), vec![15]);
}

#[test]
fn an_empty_region_keeps_nothing() {
    let rgba: Vec<u8> = (0..16).collect();
    assert_eq!(region_bytes(&rgba, 8, 3, 3, 3, 3), Vec::<u8>::new());
    assert_eq!(region_bytes(&rgba, 8, 1, 0, 4, 8), Vec::<u8>::new());
    assert_eq!(region_bytes(&Vec::new(), 8, 0, 0, 8, 8), Vec::<u8>::new());
}

#[test]
fn a_width_that_four_does_not_divide() {
    let rgba: Vec<u8> = (10..20).collect();
    // Width 3: the columns are 0 1 2 0 1 2 ..., the rows 0 1 2 4 5 6 8 9 10 12.
    assert_eq!(region_bytes(&rgba, 3, 0, 0, 1, 100), vec![10, 13, 16, 19]);
    assert_eq!(region_bytes(&rgba, 3, 1, 2, 3, 9), vec![12, 14, 15]);
}
