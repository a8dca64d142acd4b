use gpu_copy::registry::{ExportedImages, ViewParams};
use gpu_copy::snapshot::ImageWrapper;
use gpu_copy::vision::{Environment, Vision, SENSED_ROW};

fn name(s: &str) -> String {
    s.to_string()
}

fn atlas(width: u32, height: u32) -> ImageWrapper {
    let mut snapshot = ImageWrapper::new(width, height);
    let bytes: Vec<u8> = (0..(4 * width * height)).map(|k| (k % 253) as u8).collect();
    snapshot.update_data(1, &bytes);
    snapshot
}

#[test]
fn the_sensed_row_is_25() {
    assert_eq!(SENSED_ROW, 25);
}

#[test]
fn a_sensor_without_a_rectangle_sees_nothing() {
    let mut images = ExportedImages::new();
    images.insert(name("Vision"), atlas(512, 128));
    let vision = Vision::default();
    assert_eq!(vision.id, 0);
    assert!(vision.visual_sensor.is_none());
    assert_eq!(vision.sense(Environment::VisibleEnvironment, &images, &name("Vision")), None);
}

#[test]
fn a_sensor_of_an_unknown_channel_sees_nothing() {
    let images = ExportedImages::new();
    let vision = Vision {
        id: 2,
        visual_sensor: Some(ViewParams { x: 0, y: 0, width: 200, height: 50 }),
    };
    assert_eq!(vision.sense(Environment::VisibleEnvironment, &images, &name("Vision")), None);
}

#[test]
fn a_sensor_reads_one_width_of_bytes_of_its_view() {
    let mut images = ExportedImages::new();
    images.insert(name("Vision"), atlas(512, 128));
    let params = ViewParams { x: 200, y: 50, width: 200, height: 50 };
    let vision = Vision { id: 3, visual_sensor: Some(params) };
    let (view, _) = images.get_view(&name("Vision"), &params);
    let row = vision.sense(Environment::VisibleEnvironment, &images, &name("Vision")).unwrap();
    assert_eq!(row.len(), 200);
    assert_eq!(row[..], view.as_raw()[5000..5200]);
}

#[test]
fn a_sensor_of_a_low_view_sees_nothing() {
    let mut images = ExportedImages::new();
    images.insert(name("Vision"), atlas(64, 64));
    let six_rows = Vision {
        id: 1,
        visual_sensor: Some(ViewParams { x: 0, y: 0, width: 8, height: 6 }),
    };
    assert_eq!(six_rows.sense(Environment::VisibleEnvironment, &images, &name("Vision")), None);
    let seven_rows = Vision {
        id: 1,
        visual_sensor: Some(ViewParams { x: 0, y: 0, width: 8, height: 7 }),
    };
    let row =
        seven_rows.sense(Environment::VisibleEnvironment, &images, &name("Vision")).unwrap();
    let (view, _) =
        images.get_view(&name("Vision"), &ViewParams { x: 0, y: 0, width: 8, height: 7 });
    assert_eq!(row[..], view.as_raw()[200..208]);
}

#[test]
fn a_sensor_of_an_empty_view_sees_nothing() {
    let mut images = ExportedImages::new();
    images.insert(name("Vision"), atlas(64, 64));
    let vision = Vision {
        id: 1,
        visual_sensor: Some(ViewParams { x: 0, y: 0, width: 0, height: 0 }),
    };
    assert_eq!(vision.sense(Environment::VisibleEnvironment, &images, &name("Vision")), None);
}
