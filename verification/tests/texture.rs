use gloam::texture::{
    data_url_body, decode_image, decode_texture, Bitmap, DrawCall, TextureError, Textures,
};

const TWO_BY_ONE_RGBA: &str = "data:image/png;base64,iVBORw0KGgoAAAANSUhEUgAAAAIAAAABCAYAAAD0In+KAAAAEUlEQVR4nGP4z8Dwn6HhvwMAELoDvkeWIKAAAAAASUVORK5CYII=";

const ONE_BY_TWO_GREY: &str = "data:image/png;base64,iVBORw0KGgoAAAANSUhEUgAAAAEAAAACCAAAAAC86un7AAAADElEQVR4nGM4wcAOAAJjANAynnlbAAAAAElFTkSuQmCC";

#[test]
fn decodes_rgba_png_from_data_url() {
    let bitmap = decode_texture(TWO_BY_ONE_RGBA).unwrap();
    assert_eq!(bitmap.width, 2);
    assert_eq!(bitmap.height, 1);
    assert_eq!(bitmap.pixels, vec![255, 0, 0, 255, 0, 128, 255, 64]);
}

#[test]
fn grey_png_is_widened_to_rgba() {
    let bitmap = decode_texture(ONE_BY_TWO_GREY).unwrap();
    assert_eq!(bitmap.width, 1);
    assert_eq!(bitmap.height, 2);
    assert_eq!(bitmap.pixels, vec![200, 200, 200, 255, 7, 7, 7, 255]);
}

#[test]
fn text_that_is_no_data_url_is_rejected() {
    assert_eq!(decode_texture("https://example.org/a.png").err(), Some(TextureError::NotADataUrl));
    assert_eq!(decode_texture("").err(), Some(TextureError::NotADataUrl));
    assert_eq!(decode_texture("data:image/png;base64").err(), Some(TextureError::NotADataUrl));
}

#[test]
fn unsound_base64_is_rejected() {
    assert_eq!(
        decode_texture("data:image/png;base64,iVBOR*w0KGgo").err(),
        Some(TextureError::BadBase64)
    );
}

#[test]
fn body_that_is_no_image_is_rejected() {
    assert_eq!(decode_texture("data:text/plain,hello").err(), Some(TextureError::BadImage));
    assert_eq!(decode_texture("data:image/png;base64,aGVsbG8=").err(), Some(TextureError::BadImage));
}

#[test]
fn load_texture_returns_consecutive_indices() {
    let mut table = Textures::new();
    assert_eq!(table.load_texture(TWO_BY_ONE_RGBA), Ok(0));
    assert_eq!(table.load_texture(ONE_BY_TWO_GREY), Ok(1));
    assert_eq!(table.bitmaps.len(), 2);
    assert_eq!(table.bitmaps[0].width, 2);
    assert_eq!(table.bitmaps[1].pixels, vec![200, 200, 200, 255, 7, 7, 7, 255]);
}

#[test]
fn failed_load_leaves_the_table_alone() {
    let mut table = Textures::new();
    assert_eq!(table.load_texture(TWO_BY_ONE_RGBA), Ok(0));
    assert_eq!(table.load_texture("data:,"), Err(TextureError::BadImage));
    assert_eq!(table.load_texture("nonsense"), Err(TextureError::NotADataUrl));
    assert_eq!(table.bitmaps.len(), 1);
    assert_eq!(table.load_texture(ONE_BY_TWO_GREY), Ok(1));
}

#[test]
fn store_hands_errors_on() {
    let mut table = Textures::new();
    assert_eq!(table.store(Err(TextureError::BadBase64)), Err(TextureError::BadBase64));
    assert_eq!(table.bitmaps.len(), 0);
    let bitmap = Bitmap { width: 1, height: 1, pixels: vec![1, 2, 3, 4] };
    assert_eq!(table.store(Ok(bitmap)), Ok(0));
    assert_eq!(table.add(Bitmap { width: 0, height: 0, pixels: vec![] }), 1);
}

#[test]
fn every_texture_is_drawn_at_the_origin() {
    let mut table = Textures::new();
    assert!(table.draw_calls().is_empty());
    table.add(Bitmap { width: 1, height: 1, pixels: vec![0, 0, 0, 0] });
    table.add(Bitmap { width: 1, height: 1, pixels: vec![9, 9, 9, 9] });
    assert_eq!(
        table.draw_calls(),
        vec![DrawCall { texture: 0, x: 0, y: 0 }, DrawCall { texture: 1, x: 0, y: 0 }]
    );
}

#[test]
fn data_url_body_is_the_decoded_body() {
    assert_eq!(data_url_body("data:text/plain,hello"), Ok(b"hello".to_vec()));
    assert_eq!(data_url_body("data:text/plain;base64,aGVsbG8="), Ok(b"hello".to_vec()));
    assert_eq!(data_url_body("data:,"), Ok(vec![]));
    assert_eq!(data_url_body("hello"), Err(TextureError::NotADataUrl));
    assert_eq!(data_url_body("data:text/plain;base64,a*"), Err(TextureError::BadBase64));
}

#[test]
fn decode_image_reads_what_data_url_body_gives() {
    let body = data_url_body(TWO_BY_ONE_RGBA).unwrap();
    assert_eq!(&body[..8], b"\x89PNG\r\n\x1a\n");
    let bitmap = decode_image(&body).unwrap();
    assert_eq!((bitmap.width, bitmap.height), (2, 1));
    assert_eq!(bitmap.pixels, vec![255, 0, 0, 255, 0, 128, 255, 64]);
}

#[test]
fn decode_image_refuses_what_is_no_image() {
    assert_eq!(decode_image(&vec![]).err(), Some(TextureError::BadImage));
    assert_eq!(decode_image(&b"hello".to_vec()).err(), Some(TextureError::BadImage));
    let mut cut = data_url_body(TWO_BY_ONE_RGBA).unwrap();
    cut.truncate(40);
    assert_eq!(decode_image(&cut).err(), Some(TextureError::BadImage));
}

#[test]
fn decoded_bitmaps_have_four_bytes_per_pixel() {
    for text in [TWO_BY_ONE_RGBA, ONE_BY_TWO_GREY] {
        let bitmap = decode_texture(text).unwrap();
        assert!(bitmap.pixels.len() >= 4 * bitmap.width as usize * bitmap.height as usize);
    }
}
