use raidillon::texel::{to_rgba, TexelFormat};

#[test]
fn rgba_passes_through_unchanged() {
    let pixels = vec![1u8, 2, 3, 4, 5, 6, 7, 8];
    let out = to_rgba(TexelFormat::R8G8B8A8, &pixels);
    assert_eq!(out, pixels);
}

#[test]
fn rgb_gains_opaque_alpha() {
    let pixels = vec![10u8, 20, 30, 40, 50, 60];
    let out = to_rgba(TexelFormat::R8G8B8, &pixels);
    assert_eq!(out, vec![10, 20, 30, 255, 40, 50, 60, 255]);
}

#[test]
fn two_channel_becomes_luminance_plus_alpha() {
    let pixels = vec![100u8, 7, 200, 9];
    let out = to_rgba(TexelFormat::R8G8, &pixels);
    assert_eq!(out, vec![100, 100, 100, 7, 200, 200, 200, 9]);
}

#[test]
fn grayscale_replicates_with_opaque_alpha() {
    let pixels = vec![33u8, 44];
    let out = to_rgba(TexelFormat::R8, &pixels);
    assert_eq!(out, vec![33, 33, 33, 255, 44, 44, 44, 255]);
}

#[test]
fn empty_input_gives_empty_output() {
    let pixels: Vec<u8> = Vec::new();
    assert_eq!(to_rgba(TexelFormat::R8G8B8, &pixels), Vec::<u8>::new());
    assert_eq!(to_rgba(TexelFormat::R8, &pixels), Vec::<u8>::new());
}
