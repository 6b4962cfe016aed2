use raymarch::blur::{
    box_blur, box_blur_horz, box_blur_vert, create_box_gauss, gaussian_blur,
    gaussian_blur_asymmetric, gaussian_blur_asymmetric_single_channel,
};
use raymarch::configuration::{height, width};
use raymarch::film::{to_bytes, BasicFilm};
use raymarch::filter::{ColorShift, ColorShiftMode, Filter, GrayFilter};
use raymarch::fixed::{Fixed, SCALE};
use raymarch::parameter::{Param, Snapshot};
use raymarch::postprocessor::{
    convert_image, cut_image, BloomPostProcessor, BlurPostProcessor, PostProcessor,
};

fn fx(v: f64) -> Fixed {
    Fixed::from_raw((v * SCALE as f64).round() as i64)
}

fn c(v: f64) -> Param {
    Param::constant(fx(v))
}

fn grey(v: f64) -> [Fixed; 3] {
    [fx(v), fx(v), fx(v)]
}

fn reds(img: &Vec<[Fixed; 3]>) -> Vec<i64> {
    img.iter().map(|p| p[0].raw() / SCALE).collect()
}

#[test]
fn box_blur_along_a_row_counts_the_border_again() {
    let back: Vec<[Fixed; 3]> = [0.0, 3.0, 6.0, 9.0].iter().map(|v| grey(*v)).collect();
    let mut front = back.clone();
    box_blur_horz(&back, &mut front, 4, 1, 1);
    // (0 + 0 + 3) / 3, (0 + 3 + 6) / 3, (3 + 6 + 9) / 3, (6 + 9 + 9) / 3
    assert_eq!(reds(&front), vec![1, 3, 6, 8]);
    assert_eq!(front[2][1].raw(), 6 * SCALE);
    assert_eq!(front[2][2].raw(), 6 * SCALE);
    box_blur_horz(&back, &mut front, 4, 1, 0);
    assert_eq!(reds(&front), vec![0, 3, 6, 9]);
    // a radius beyond the row: every window holds the whole row and borders
    box_blur_horz(&back, &mut front, 4, 1, 4);
    // window of nine around place 0: five times 0, then 3, 6, 9, 9
    assert_eq!(front[0][0].raw(), 3 * SCALE);
    assert_eq!(front[3][0].raw(), 6 * SCALE);
}

#[test]
fn box_blur_keeps_rows_apart() {
    let back: Vec<[Fixed; 3]> = [0.0, 6.0, 30.0, 60.0].iter().map(|v| grey(*v)).collect();
    let mut front = back.clone();
    box_blur_horz(&back, &mut front, 2, 2, 1);
    assert_eq!(reds(&front), vec![2, 4, 40, 50]);
    box_blur_vert(&back, &mut front, 2, 2, 1);
    // columns (0, 30) and (6, 60)
    assert_eq!(reds(&front), vec![10, 24, 20, 42]);
}

#[test]
fn box_blur_rounds_the_mean_down() {
    let back: Vec<[Fixed; 3]> = vec![
        [Fixed::from_raw(1), Fixed::from_raw(-1), Fixed::from_raw(0)],
        [Fixed::from_raw(0), Fixed::from_raw(0), Fixed::from_raw(5)],
    ];
    let mut front = back.clone();
    box_blur_horz(&back, &mut front, 2, 1, 1);
    // sums 2, -2, 5 over three
    assert_eq!([front[0][0].raw(), front[0][1].raw(), front[0][2].raw()], [0, -1, 1]);
}

#[test]
fn one_pass_blurs_rows_and_then_columns() {
    let mut back: Vec<[Fixed; 3]> = [0.0, 6.0, 30.0, 60.0].iter().map(|v| grey(*v)).collect();
    let mut front = back.clone();
    box_blur(&mut back, &mut front, 2, 2, 1, 1);
    assert_eq!(reds(&front), vec![2, 4, 40, 50]);
    // columns (2, 40) and (4, 50) of the blurred rows
    assert_eq!(reds(&back), vec![14, 19, 27, 34]);
}

#[test]
fn box_widths_for_a_gaussian() {
    assert_eq!(create_box_gauss(fx(3.0), 3), vec![7, 7, 7]);
    assert_eq!(create_box_gauss(fx(1.0), 3), vec![3, 3, 3]);
    assert_eq!(create_box_gauss(fx(0.0), 3), vec![1, 1, 1]);
    assert_eq!(create_box_gauss(fx(-2.0), 2), vec![1, 1]);
    assert_eq!(create_box_gauss(fx(3.0), 0), Vec::<i32>::new());
    // sqrt(12 * 1.44 / 3) + 1 = 3.4: boxes of 3 and 5
    // m = (17.28 - 27 - 36 - 9) / -16 = 3.42, rounded 3: all of the lower width
    assert_eq!(create_box_gauss(fx(1.2), 3), vec![3, 3, 3]);
    assert_eq!(create_box_gauss(fx(2.0), 3), vec![5, 5, 5]);
}

#[test]
fn gaussian_blur_leaves_a_flat_image_flat() {
    let mut img: Vec<[Fixed; 3]> = (0..12).map(|_| grey(0.25)).collect();
    gaussian_blur(&mut img, 4, 3, fx(1.0));
    assert!(img.iter().all(|p| p[0].raw() == SCALE / 4 && p[2].raw() == SCALE / 4));
    let mut unchanged: Vec<[Fixed; 3]> = (0..12).map(|i| grey(i as f64)).collect();
    gaussian_blur(&mut unchanged, 4, 3, fx(0.0));
    assert_eq!(reds(&unchanged), (0..12).collect::<Vec<i64>>());
}

#[test]
fn gaussian_blur_spreads_a_point() {
    let mut img: Vec<[Fixed; 3]> = (0..25).map(|_| grey(0.0)).collect();
    img[12] = grey(729.0);
    gaussian_blur(&mut img, 5, 5, fx(1.0));
    // after two passes the middle row holds 27, 54, 81, 54, 27 and the rows
    // beside it two thirds and one third of that; the image keeps what the
    // rows of the third pass give, with the border counted again
    assert_eq!(reds(&img)[10..15].to_vec(), vec![36, 54, 63, 54, 36]);
    assert_eq!(reds(&img)[5..10].to_vec(), vec![24, 36, 42, 36, 24]);
    assert_eq!(reds(&img)[0..5].to_vec(), vec![12, 18, 21, 18, 12]);
    assert_eq!(reds(&img)[20..25].to_vec(), vec![12, 18, 21, 18, 12]);
}

#[test]
fn asymmetric_blur_has_a_radius_for_each_direction() {
    let mut img: Vec<[Fixed; 3]> = (0..9).map(|_| grey(0.0)).collect();
    img[4] = grey(27.0);
    gaussian_blur_asymmetric(&mut img, 3, 3, fx(1.0), fx(0.0));
    // only the rows are blurred: three passes of radius one level the middle row
    assert_eq!(reds(&img)[0..3].to_vec(), vec![0, 0, 0]);
    assert_eq!(reds(&img)[3..6].to_vec(), vec![9, 9, 9]);
    let mut single: Vec<Fixed> = vec![fx(0.0), fx(0.0), fx(0.0), fx(0.0), fx(27.0), fx(0.0), fx(0.0), fx(0.0), fx(0.0)];
    gaussian_blur_asymmetric_single_channel(&mut single, 3, 3, fx(1.0), fx(0.0));
    assert_eq!(single.iter().map(|v| v.raw() / SCALE).collect::<Vec<i64>>(), vec![0, 0, 0, 9, 9, 9, 0, 0, 0]);
}

#[test]
fn images_are_gathered_pixel_by_pixel() {
    let data = vec![fx(0.1), fx(0.6), fx(0.5), fx(0.9), fx(0.2), fx(0.51), fx(7.0)];
    let cut = cut_image(fx(0.5), &data);
    assert_eq!(cut.len(), 2);
    assert_eq!([cut[0][0].raw(), cut[0][1].raw(), cut[0][2].raw()], [0, fx(0.6).raw(), 0]);
    assert_eq!([cut[1][0].raw(), cut[1][1].raw(), cut[1][2].raw()], [fx(0.9).raw(), 0, fx(0.51).raw()]);
    let all = convert_image(&data);
    assert_eq!(all.len(), 2);
    assert_eq!(all[1][1].raw(), fx(0.2).raw());
}

#[test]
fn film_adds_filtered_colours_to_a_pixel() {
    let mut film = BasicFilm::new(
        vec![
            Filter::ColorShift(ColorShift::new([c(2.0), c(2.0), c(2.0)], ColorShiftMode::Mul)),
            Filter::ColorShift(ColorShift::new([c(0.5), c(0.0), c(0.0)], ColorShiftMode::Add)),
        ],
        Vec::new(),
    );
    assert!(film.well_formed());
    assert_eq!(film.channels(), (width * height * 3) as usize);
    film.write_pixel(3, 2, [fx(0.25), fx(0.5), fx(1.0)]);
    film.write_pixel(3, 2, [fx(0.25), fx(0.5), fx(1.0)]);
    let p = film.pixel(3, 2);
    // twice (2 v + (0.5, 0, 0)): the filters apply in order
    assert_eq!([p[0].raw(), p[1].raw(), p[2].raw()], [2 * SCALE, 2 * SCALE, 4 * SCALE]);
    assert_eq!(film.channel(((2 * width + 3) * 3) as usize).raw(), 2 * SCALE);
    assert_eq!(film.pixel(2, 3)[0].raw(), 0);
    assert_eq!(film.pixel(width - 1, height - 1)[2].raw(), 0);
    film.prepare_render();
    assert_eq!(film.pixel(3, 2)[0].raw(), 0);
    assert!(film.well_formed());
}

#[test]
fn film_follows_its_slots() {
    let mut film = BasicFilm::new(
        vec![Filter::Gray(GrayFilter::new(Param::animated(0, fx(0.0))))],
        vec![PostProcessor::Blur(BlurPostProcessor::new(Param::animated(1, fx(0.0))))],
    );
    film.write_pixel(0, 0, [fx(0.3), fx(0.6), fx(0.9)]);
    film.evaluate(&Snapshot::new(vec![fx(1.0), fx(0.0)], Vec::new()));
    film.write_pixel(1, 0, [fx(0.3), fx(0.6), fx(0.9)]);
    assert_eq!(film.pixel(0, 0)[0].raw(), 300_000_000);
    assert_eq!(film.pixel(1, 0)[0].raw(), 599_994_000);
    // a blur without width develops the image as it is
    let developed = film.develop();
    assert_eq!(developed.len(), film.channels());
    assert_eq!(developed[0].raw(), 300_000_000);
    assert_eq!(developed[3].raw(), 599_994_000);
}

#[test]
fn channels_become_sixteen_bits() {
    let bytes = to_bytes(&vec![fx(0.0), fx(0.5), fx(1.0), fx(-3.0), fx(0.25), Fixed::from_raw(15_259)]);
    assert_eq!(bytes.len(), 12);
    assert_eq!(&bytes[0..2], &[0, 0]);
    // 0.5 * 65536 = 0x8000, low byte first
    assert_eq!(&bytes[2..4], &[0x00, 0x80]);
    assert_eq!(&bytes[4..6], &[0xff, 0xff]);
    assert_eq!(&bytes[6..8], &[0, 0]);
    assert_eq!(&bytes[8..10], &[0x00, 0x40]);
    // just one 65536th
    assert_eq!(&bytes[10..12], &[1, 0]);
}

#[test]
fn bloom_adds_the_blurred_bright_part() {
    let mut film = BasicFilm::new(
        Vec::new(),
        vec![PostProcessor::Bloom(BloomPostProcessor::new(c(0.5), c(2.0), c(0.0)))],
    );
    film.write_pixel(5, 5, [fx(0.75), fx(0.25), fx(0.5)]);
    let developed = film.develop();
    let at = ((5 * width + 5) * 3) as usize;
    // without width the blur keeps the bright part: v + 2 v where v is over the cut
    assert_eq!(developed[at].raw(), 2_250_000_000);
    assert_eq!(developed[at + 1].raw(), 250_000_000);
    assert_eq!(developed[at + 2].raw(), 500_000_000);
    assert_eq!(developed[at + 3].raw(), 0);
    let bytes = film.save_bytes();
    assert_eq!(bytes.len(), film.channels() * 2);
    assert_eq!(&bytes[2 * at..2 * at + 2], &[0xff, 0xff]);
    assert_eq!(&bytes[2 * at + 2..2 * at + 4], &[0x00, 0x40]);
}

#[test]
fn blur_step_spreads_a_pixel_over_the_image() {
    let blur = PostProcessor::Blur(BlurPostProcessor::new(c(1.0)));
    let mut data: Vec<Fixed> = vec![fx(0.0); (width * height * 3) as usize];
    let at = ((10 * width + 10) * 3) as usize;
    data[at] = fx(729.0);
    let out = blur.process_image(data);
    assert_eq!(out.len(), (width * height * 3) as usize);
    assert_eq!(out[at].raw() / SCALE, 63);
    assert_eq!(out[at + 3].raw() / SCALE, 54);
    assert_eq!(out[at + 6].raw() / SCALE, 27);
    assert_eq!(out[at + 9].raw() / SCALE, 9);
    assert_eq!(out[at + 12].raw(), 0);
    assert_eq!(out[at + 1].raw(), 0);
    assert_eq!(out[at + (width * 3) as usize].raw() / SCALE, 42);
}
