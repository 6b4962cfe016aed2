//! What is done to the whole image once it has gathered its light.

use crate::blur::{
    gaussian_blur, image_of, spec_channel, spec_gaussian_blur, Image,
};
use crate::configuration;
use crate::evaluator::raw_values;
use crate::film::spec_channels;
use crate::fixed::{saturate, spec_mul, Fixed};
use crate::helpers::{point_of, Point};
use crate::parameter::{Param, Snapshot};
use vstd::prelude::*;

verus! {

/// The channels of an image gathered pixel by pixel; a channel that is
/// not over `cut` becomes zero.
pub open spec fn spec_cut_image(cut: int, data: Seq<int>) -> Image {
    Seq::new(
        (data.len() / 3) as nat,
        |o: int|
            Point {
                x: if data[o * 3] > cut {
                    data[o * 3]
                } else {
                    0
                },
                y: if data[o * 3 + 1] > cut {
                    data[o * 3 + 1]
                } else {
                    0
                },
                z: if data[o * 3 + 2] > cut {
                    data[o * 3 + 2]
                } else {
                    0
                },
            },
    )
}

/// The channels of an image gathered pixel by pixel.
pub open spec fn spec_convert_image(data: Seq<int>) -> Image {
    Seq::new(
        (data.len() / 3) as nat,
        |o: int| Point { x: data[o * 3], y: data[o * 3 + 1], z: data[o * 3 + 2] },
    )
}

/// The pixels of an image laid out channel by channel.
pub open spec fn spec_flat(img: Image) -> Seq<int> {
    Seq::new(img.len() * 3, |i: int| spec_channel(img[i / 3], i % 3))
}

/// The image with a blur of its bright part added: the part over `cut` is
/// blurred by a Gaussian of the deviation `size`, weighted by `factor`, and
/// added to the image.
pub open spec fn spec_bloom(cut: int, factor: int, size: int, data: Seq<int>) -> Seq<int> {
    let blurred = spec_gaussian_blur(
        spec_cut_image(cut, data),
        configuration::width as int,
        configuration::height as int,
        size,
        size,
    );
    Seq::new(
        blurred.len() * 3,
        |i: int| saturate(spec_mul(spec_channel(blurred[i / 3], i % 3), factor) + data[i]),
    )
}

/// The image blurred by a Gaussian of the deviation `size`.
pub open spec fn spec_blurred(size: int, data: Seq<int>) -> Seq<int> {
    spec_flat(
        spec_gaussian_blur(
            spec_convert_image(data),
            configuration::width as int,
            configuration::height as int,
            size,
            size,
        ),
    )
}

/// The channels gathered pixel by pixel, without those that are not over `cut`.
pub fn cut_image(cut: Fixed, data: &Vec<Fixed>) -> (r: Vec<[Fixed; 3]>)
    ensures
        image_of(r@) == spec_cut_image(cut@, raw_values(data@)),
{
    let zero: Fixed = Fixed::zero();
    let mut u: Vec<[Fixed; 3]> = Vec::new();
    let count: usize = data.len() / 3;
    assert(data@.len() <= usize::MAX);
    let mut o: usize = 0;
    while o < count
        invariant
            o <= count,
            count == data@.len() / 3,
            data@.len() <= usize::MAX,
            u@.len() == o,
            zero@ == 0,
            forall|j: int|
                0 <= j < o ==> point_of(#[trigger] u@[j]) == spec_cut_image(
                    cut@,
                    raw_values(data@),
                )[j],
        decreases count - o,
    {
        let a: Fixed = data[o * 3];
        let b: Fixed = data[o * 3 + 1];
        let c: Fixed = data[o * 3 + 2];
        u.push(
            [
                if a.gt(cut) {
                    a
                } else {
                    zero
                },
                if b.gt(cut) {
                    b
                } else {
                    zero
                },
                if c.gt(cut) {
                    c
                } else {
                    zero
                },
            ],
        );
        o = o + 1;
    }
    assert(image_of(u@) =~= spec_cut_image(cut@, raw_values(data@)));
    u
}

/// The channels gathered pixel by pixel.
pub fn convert_image(data: &Vec<Fixed>) -> (r: Vec<[Fixed; 3]>)
    ensures
        image_of(r@) == spec_convert_image(raw_values(data@)),
{
    let mut u: Vec<[Fixed; 3]> = Vec::new();
    let count: usize = data.len() / 3;
    assert(data@.len() <= usize::MAX);
    let mut o: usize = 0;
    while o < count
        invariant
            o <= count,
            count == data@.len() / 3,
            data@.len() <= usize::MAX,
            u@.len() == o,
            forall|j: int|
                0 <= j < o ==> point_of(#[trigger] u@[j]) == spec_convert_image(
                    raw_values(data@),
                )[j],
        decreases count - o,
    {
        u.push([data[o * 3], data[o * 3 + 1], data[o * 3 + 2]]);
        o = o + 1;
    }
    assert(image_of(u@) =~= spec_convert_image(raw_values(data@)));
    u
}

/// The number of pixels of the image is its width times its height.
proof fn lemma_pixels()
    ensures
        spec_channels() == 1_036_800,
        spec_channels() / 3 == configuration::width * configuration::height,
{
    assert(configuration::width * configuration::height == 345_600) by (nonlinear_arith)
        requires
            configuration::width == 720,
            configuration::height == 480,
    ;
}

/// Makes the bright parts of the image glow.
#[derive(Clone, Copy, Debug)]
pub struct BloomPostProcessor {
    pub bloom_cut: Param,
    pub factor: Param,
    pub size: Param,
}

impl BloomPostProcessor {
    pub fn new(bloom_cut: Param, factor: Param, size: Param) -> (r: BloomPostProcessor)
        ensures
            r.bloom_cut == bloom_cut,
            r.factor == factor,
            r.size == size,
    {
        BloomPostProcessor { bloom_cut, factor, size }
    }

    pub fn process_image(&self, data: Vec<Fixed>) -> (r: Vec<Fixed>)
        requires
            data@.len() == spec_channels(),
        ensures
            r@.len() == spec_channels(),
            raw_values(r@) == spec_bloom(
                self.bloom_cut.value@,
                self.factor.value@,
                self.size.value@,
                raw_values(data@),
            ),
    {
        proof {
            lemma_pixels();
        }
        let factor: Fixed = self.factor.get();
        let mut cut_img: Vec<[Fixed; 3]> = cut_image(self.bloom_cut.get(), &data);
        let ghost cut = image_of(cut_img@);
        assert(cut_img@.len() == image_of(cut_img@).len());
        gaussian_blur(
            &mut cut_img,
            configuration::width as usize,
            configuration::height as usize,
            self.size.get(),
        );
        let ghost blurred = image_of(cut_img@);
        let ghost want = spec_bloom(
            self.bloom_cut.value@,
            self.factor.value@,
            self.size.value@,
            raw_values(data@),
        );
        let mut d: Vec<Fixed> = Vec::new();
        let mut i: usize = 0;
        while i < cut_img.len()
            invariant
                i <= cut_img.len(),
                cut_img@.len() == 345_600,
                data@.len() == 1_036_800,
                d@.len() == 3 * i,
                blurred == image_of(cut_img@),
                factor == self.factor.value,
                want.len() == 1_036_800,
                forall|j: int|
                    0 <= j < 3 * i ==> (#[trigger] d@[j])@ == saturate(
                        spec_mul(spec_channel(blurred[j / 3], j % 3), factor@) + raw_values(
                            data@,
                        )[j],
                    ),
            decreases cut_img.len() - i,
        {
            let p: [Fixed; 3] = cut_img[i];
            assert(blurred[i as int] == point_of(p));
            d.push(p[0].mul(factor).add(data[i * 3]));
            d.push(p[1].mul(factor).add(data[i * 3 + 1]));
            d.push(p[2].mul(factor).add(data[i * 3 + 2]));
            i = i + 1;
        }
        assert(raw_values(d@) =~= want);
        d
    }

    pub fn evaluate(&mut self, snapshot: &Snapshot)
        ensures
            final(self).bloom_cut == old(self).bloom_cut.resolved(snapshot),
            final(self).factor == old(self).factor.resolved(snapshot),
            final(self).size == old(self).size.resolved(snapshot),
    {
        self.bloom_cut = self.bloom_cut.resolve(snapshot);
        self.factor = self.factor.resolve(snapshot);
        self.size = self.size.resolve(snapshot);
    }
}

/// Blurs the image.
#[derive(Clone, Copy, Debug)]
pub struct BlurPostProcessor {
    pub size: Param,
}

impl BlurPostProcessor {
    pub fn new(size: Param) -> (r: BlurPostProcessor)
        ensures
            r.size == size,
    {
        BlurPostProcessor { size }
    }

    pub fn process_image(&self, data: Vec<Fixed>) -> (r: Vec<Fixed>)
        requires
            data@.len() == spec_channels(),
        ensures
            r@.len() == spec_channels(),
            raw_values(r@) == spec_blurred(self.size.value@, raw_values(data@)),
    {
        proof {
            lemma_pixels();
        }
        let mut cut_img: Vec<[Fixed; 3]> = convert_image(&data);
        assert(cut_img@.len() == image_of(cut_img@).len());
        gaussian_blur(
            &mut cut_img,
            configuration::width as usize,
            configuration::height as usize,
            self.size.get(),
        );
        let ghost blurred = image_of(cut_img@);
        let ghost want = spec_blurred(self.size.value@, raw_values(data@));
        let mut d: Vec<Fixed> = Vec::new();
        let mut i: usize = 0;
        while i < cut_img.len()
            invariant
                i <= cut_img.len(),
                cut_img@.len() == 345_600,
                d@.len() == 3 * i,
                blurred == image_of(cut_img@),
                want.len() == 1_036_800,
                forall|j: int|
                    0 <= j < 3 * i ==> (#[trigger] d@[j])@ == spec_channel(blurred[j / 3], j % 3),
            decreases cut_img.len() - i,
        {
            let p: [Fixed; 3] = cut_img[i];
            assert(blurred[i as int] == point_of(p));
            d.push(p[0]);
            d.push(p[1]);
            d.push(p[2]);
            i = i + 1;
        }
        assert(raw_values(d@) =~= want);
        d
    }

    pub fn evaluate(&mut self, snapshot: &Snapshot)
        ensures
            final(self).size == old(self).size.resolved(snapshot),
    {
        self.size = self.size.resolve(snapshot);
    }
}

/// Something that is done to the whole image.
#[derive(Clone, Copy, Debug)]
pub enum PostProcessor {
    Bloom(BloomPostProcessor),
    Blur(BlurPostProcessor),
}

impl PostProcessor {
    /// The image after the step, in raw values.
    pub open spec fn spec_process(&self, data: Seq<int>) -> Seq<int> {
        match self {
            PostProcessor::Bloom(p) => spec_bloom(
                p.bloom_cut.value@,
                p.factor.value@,
                p.size.value@,
                data,
            ),
            PostProcessor::Blur(p) => spec_blurred(p.size.value@, data),
        }
    }

    /// Whether `new` is `self` refreshed from `snapshot`.
    pub open spec fn resolves_to(&self, new: &PostProcessor, snapshot: &Snapshot) -> bool {
        match (self, new) {
            (PostProcessor::Bloom(a), PostProcessor::Bloom(b)) => {
                &&& b.bloom_cut == a.bloom_cut.resolved(snapshot)
                &&& b.factor == a.factor.resolved(snapshot)
                &&& b.size == a.size.resolved(snapshot)
            },
            (PostProcessor::Blur(a), PostProcessor::Blur(b)) => b.size == a.size.resolved(snapshot),
            _ => false,
        }
    }

    /// The image after the step.
    pub fn process_image(&self, data: Vec<Fixed>) -> (r: Vec<Fixed>)
        requires
            data@.len() == spec_channels(),
        ensures
            r@.len() == spec_channels(),
            raw_values(r@) == self.spec_process(raw_values(data@)),
    {
        match self {
            PostProcessor::Bloom(p) => p.process_image(data),
            PostProcessor::Blur(p) => p.process_image(data),
        }
    }

    /// Refreshes the attributes of the step from `snapshot`.
    pub fn evaluate(&mut self, snapshot: &Snapshot)
        ensures
            old(self).resolves_to(final(self), snapshot),
    {
        match self {
            PostProcessor::Bloom(p) => p.evaluate(snapshot),
            PostProcessor::Blur(p) => p.evaluate(snapshot),
        }
    }
}

} // verus!
