use gpu_copy::export::GpuImageExport;
use gpu_copy::node::{ExportSource, ImageExportNode, NodeName};

fn source(width: u32, height: u32, texture_available: bool) -> ExportSource {
    ExportSource {
        export: GpuImageExport::prepare((width, height), (1, 1), 4).unwrap(),
        texture_available,
    }
}

#[test]
fn no_sources_no_copies() {
    assert!(ImageExportNode.run(&Vec::new()).is_empty());
}

#[test]
fn every_available_source_is_copied_with_its_padded_stride() {
    let sources = vec![source(150, 4, true), source(512, 128, true)];
    let copies = ImageExportNode.run(&sources);
    assert_eq!(copies.len(), 2);
    assert_eq!(copies[0].source, 0);
    assert_eq!(copies[0].layout.offset, 0);
    assert_eq!(copies[0].layout.bytes_per_row, Some(768));
    assert_eq!(copies[0].layout.rows_per_image, None);
    assert_eq!(copies[0].copy_size, (150, 4));
    assert_eq!(copies[1].source, 1);
    assert_eq!(copies[1].layout.offset, 0);
    assert_eq!(copies[1].layout.bytes_per_row, Some(2048));
    assert_eq!(copies[1].layout.rows_per_image, None);
    assert_eq!(copies[1].copy_size, (512, 128));
}

#[test]
fn a_source_without_its_texture_is_passed_over() {
    let sources = vec![
        source(150, 4, false),
        source(512, 128, true),
        source(64, 64, false),
        source(1, 1, true),
    ];
    let copies = ImageExportNode.run(&sources);
    assert_eq!(copies.len(), 2);
    assert_eq!(copies[0].source, 1);
    assert_eq!(copies[0].layout.bytes_per_row, Some(2048));
    assert_eq!(copies[0].copy_size, (512, 128));
    assert_eq!(copies[1].source, 3);
    assert_eq!(copies[1].layout.bytes_per_row, Some(256));
    assert_eq!(copies[1].copy_size, (1, 1));
}

#[test]
fn no_texture_no_copy() {
    let sources = vec![source(150, 4, false), source(512, 128, false)];
    assert!(ImageExportNode.run(&sources).is_empty());
}

#[test]
fn the_node_has_one_name() {
    assert_eq!(NodeName, NodeName);
    assert_eq!(format!("{:?}", NodeName), "NodeName");
}
