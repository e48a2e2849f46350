use wardogs_arty_buddy::ink::{fault_color, Ink, Rgb};
use wardogs_arty_buddy::terrain::{i16_from_le, GameMap, Grid};

#[test]
fn main_solid_inks_have_no_wave() {
    assert!(Ink::Green.palette().is_none());
    assert!(Ink::Amber.palette().is_none());
    assert!(Ink::Rainbow.palette().is_some());
}

#[test]
fn wave_solid_inks_have_no_wave() {
    assert!(Ink::Green.palette().is_none());
    assert!(Ink::Amber.palette().is_none());
    assert!(Ink::Rainbow.palette().is_some());
}

#[test]
fn wave_inks_write_in_their_palette_text() {
    for ink in Ink::ALL {
        match ink.palette() {
            Some(palette) => {
                assert_eq!(ink.color(), palette.text);
                assert_eq!(ink.repaint_millis(), 32);
            }
            None => assert_eq!(ink.repaint_millis(), 200),
        }
    }
    let blue = Ink::BlueWave.palette().unwrap();
    assert_eq!((blue.center, blue.span), (50, 20));
    assert_eq!(blue.bands[3], Rgb { r: 0x7A, g: 0xFF, b: 0xF0 });
    assert_eq!(Ink::Amber.color(), Rgb { r: 0xE2, g: 0xA2, b: 0x2A });
}

#[test]
fn fault_turns_white_on_a_red_ink() {
    let white = Rgb { r: 255, g: 255, b: 255 };
    let light_red = Rgb { r: 0xFF, g: 0x5A, b: 0x4A };
    assert_eq!(fault_color(Ink::Red.color()), white);
    assert_eq!(fault_color(Ink::Green.color()), light_red);
    assert_eq!(fault_color(Ink::Amber.color()), light_red);
}

#[test]
fn map_labels() {
    let shorts: Vec<&str> = GameMap::ALL.iter().map(|map| map.short()).collect();
    assert_eq!(shorts, ["BAK", "OZE", "ZES"]);
    assert_eq!(GameMap::Ozeti.name(), "Ozeti");
}

#[test]
fn little_endian_samples() {
    assert_eq!(i16_from_le(100, 0), 100);
    assert_eq!(i16_from_le(0, 128), i16::MIN);
    assert_eq!(i16_from_le(0xFF, 0xFF), -1);
    assert_eq!(i16_from_le(0x34, 0x12), 0x1234);
}

#[test]
fn cell_corners_read_decimeters() {
    let grid = Grid { nx: 2, ny: 2, samples: vec![0, 0, 100, 0, 0, 0, 0, 0] };
    assert_eq!(grid.corners(0, 0), Some([0, 100, 0, 0]));
    assert_eq!(grid.corners(1, 1), Some([0, 0, 0, 0]));
    assert_eq!(grid.decimeters_at(1, 0), Some(100));
}

#[test]
fn sentinel_corner_is_no_data() {
    let grid = Grid { nx: 2, ny: 2, samples: vec![0, 0, 0, 128, 0, 0, 0, 0] };
    assert!(grid.corners(0, 0).is_none());
    assert_eq!(grid.decimeters_at(1, 0), None);
}

#[test]
fn short_sample_bytes_are_no_data() {
    let grid = Grid { nx: 2, ny: 2, samples: vec![0, 0, 5, 0, 7] };
    assert_eq!(grid.decimeters_at(1, 0), Some(5));
    assert_eq!(grid.decimeters_at(0, 1), None);
    assert!(grid.corners(0, 0).is_none());
}

#[test]
fn map_grids_lie_where_the_tables_say() {
    let ozeti = GameMap::Ozeti.layout();
    assert_eq!((ozeti.x_min_hundredths, ozeti.y_min_hundredths), (0, 162));
    assert_eq!((ozeti.nx, ozeti.ny), (1617, 1617));
    let bakurani = GameMap::Bakurani.layout();
    assert_eq!((bakurani.y_min_hundredths, bakurani.nx), (0, 1633));
    assert_eq!(GameMap::Zestafona.layout().ny, 1633);
}

#[test]
fn grids_need_two_bytes_a_sample() {
    assert!(Grid::new(2, 2, vec![0; 8]).is_some());
    assert!(Grid::new(2, 2, vec![0; 7]).is_none());
    assert!(Grid::new(usize::MAX, 3, vec![]).is_none());
    assert!(GameMap::Ozeti.grid(vec![0; 2 * 1617 * 1617]).is_some());
    assert!(GameMap::Ozeti.grid(vec![0; 2 * 1633 * 1633]).is_none());
    let grid = GameMap::Bakurani.grid(vec![0; 2 * 1633 * 1633]).unwrap();
    assert_eq!((grid.nx, grid.ny), (1633, 1633));
}
