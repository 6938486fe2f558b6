use pixelflut::color::Color;
use pixelflut::pixmap::{
    pixel_coordinates_2_index, verify_coordinates_are_inside, GenericError, Pixmap,
};

#[test]
fn new_pixmap_is_black() {
    let pixmap = Pixmap::new(3, 2).unwrap();
    assert_eq!(pixmap.get_size(), (3, 2));
    assert_eq!(pixmap.get_raw_data(), vec![Color(0, 0, 0); 6]);
}

#[test]
fn new_pixmap_needs_cells() {
    assert_eq!(Pixmap::new(0, 5).err(), Some(GenericError::InvalidSize(0, 5)));
    assert_eq!(Pixmap::new(5, 0).err(), Some(GenericError::InvalidSize(5, 0)));
    assert_eq!(Pixmap::new(0, 0).err(), Some(GenericError::InvalidSize(0, 0)));
    assert!(Pixmap::new(1, 1).is_ok());
}

#[test]
fn index_is_row_major() {
    let pixmap = Pixmap::new(4, 4).unwrap();
    assert_eq!(pixel_coordinates_2_index(&pixmap, 0, 0), 0);
    assert_eq!(pixel_coordinates_2_index(&pixmap, 1, 2), 9);
    assert_eq!(pixel_coordinates_2_index(&pixmap, 3, 3), 15);
    let wide = Pixmap::new(7, 2).unwrap();
    assert_eq!(pixel_coordinates_2_index(&wide, 6, 1), 13);
}

#[test]
fn coordinates_are_checked_against_both_dimensions() {
    let pixmap = Pixmap::new(4, 2).unwrap();
    assert_eq!(verify_coordinates_are_inside(&pixmap, 3, 1), Ok(()));
    assert_eq!(
        verify_coordinates_are_inside(&pixmap, 4, 1),
        Err(GenericError::InvalidCoordinates { target: (4, 1), size: (4, 2) })
    );
    assert_eq!(
        verify_coordinates_are_inside(&pixmap, 3, 2),
        Err(GenericError::InvalidCoordinates { target: (3, 2), size: (4, 2) })
    );
}

#[test]
fn set_and_get_pixel() {
    let mut pixmap = Pixmap::new(5, 3).unwrap();
    for y in 0..3 {
        for x in 0..5 {
            let color = Color(x as u8, y as u8, 200);
            assert_eq!(pixmap.set_pixel(x, y, color), Ok(()));
            assert_eq!(pixmap.get_pixel(x, y), Ok(color));
        }
    }
    for y in 0..3 {
        for x in 0..5 {
            assert_eq!(pixmap.get_pixel(x, y), Ok(Color(x as u8, y as u8, 200)));
        }
    }
}

#[test]
fn set_pixel_touches_one_cell() {
    let mut pixmap = Pixmap::new(4, 4).unwrap();
    pixmap.set_pixel(1, 2, Color(9, 8, 7)).unwrap();
    let mut expected = vec![Color(0, 0, 0); 16];
    expected[9] = Color(9, 8, 7);
    assert_eq!(pixmap.get_raw_data(), expected);
}

#[test]
fn pixels_outside_are_refused() {
    let mut pixmap = Pixmap::new(4, 4).unwrap();
    let error = GenericError::InvalidCoordinates { target: (4, 0), size: (4, 4) };
    assert_eq!(pixmap.get_pixel(4, 0), Err(error));
    assert_eq!(pixmap.set_pixel(4, 0, Color(1, 1, 1)), Err(error));
    assert_eq!(
        pixmap.set_pixel(0, 4, Color(1, 1, 1)),
        Err(GenericError::InvalidCoordinates { target: (0, 4), size: (4, 4) })
    );
    assert_eq!(pixmap.get_raw_data(), vec![Color(0, 0, 0); 16]);
}

#[test]
fn put_and_get_raw_data() {
    let mut pixmap = Pixmap::new(3, 3).unwrap();
    let data: Vec<Color> = (0..9).map(|i| Color(i as u8, 2 * i as u8, 3 * i as u8)).collect();
    pixmap.put_raw_data(&data);
    assert_eq!(pixmap.get_raw_data(), data);
    assert_eq!(pixmap.get_pixel(1, 2), Ok(Color(7, 14, 21)));
}

#[test]
fn put_raw_data_with_incorrect_size_data() {
    let mut pixmap = Pixmap::new(6, 4).unwrap();
    let size = 24;

    // empty data
    pixmap.set_pixel(0, 0, Color(42, 42, 42)).unwrap();
    pixmap.set_pixel(1, 0, Color(43, 43, 43)).unwrap();
    pixmap.put_raw_data(&Vec::<Color>::new());
    let output_data = pixmap.get_raw_data();
    assert_eq!(output_data[0], Color(42, 42, 42));
    assert_eq!(output_data[1], Color(43, 43, 43));
    assert_eq!(output_data[2..], vec![Color(0, 0, 0); size - 2]);

    // too small data
    let input_data = vec![Color(42, 42, 42); 10];
    pixmap.put_raw_data(&input_data);
    let output_data = pixmap.get_raw_data();
    assert_eq!(output_data[0..10], input_data);
    assert_eq!(output_data[10..], vec![Color(0, 0, 0); size - 10]);

    // too large data
    let input_data = vec![Color(42, 42, 42); size + 10];
    pixmap.put_raw_data(&input_data);
    let output_data = pixmap.get_raw_data();
    assert_eq!(output_data, vec![Color(42, 42, 42); size]);
}

#[test]
fn put_raw_data_drops_what_does_not_fit() {
    let mut pixmap = Pixmap::new(2, 2).unwrap();
    let data: Vec<Color> = (0..7).map(|i| Color(i as u8, 0, 0)).collect();
    pixmap.put_raw_data(&data);
    assert_eq!(pixmap.get_raw_data(), data[0..4].to_vec());
}
