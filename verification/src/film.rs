//! The film: the image as it gathers light, pixel by pixel.

use crate::configuration;
use crate::evaluator::raw_values;
use crate::filter::{filters_resolve_to, spec_filter_chain, Filter};
use crate::fixed::{floor_div, lemma_mul_bounds, saturate, spec_clamp, Fixed, LIMIT, SCALE};
use crate::helpers::{point_of, Point};
use crate::parameter::Snapshot;
use crate::postprocessor::PostProcessor;
use vstd::prelude::*;

verus! {

/// The number of channels of the image: three for every pixel.
pub open spec fn spec_channels() -> int {
    configuration::width * configuration::height * 3
}

/// The place of the first channel of the pixel `(x, y)`: the image is
/// held row by row.
pub open spec fn spec_index(x: int, y: int) -> int {
    (y * configuration::width + x) * 3
}

/// An image that is zero everywhere.
pub open spec fn spec_blank() -> Seq<int> {
    Seq::new(spec_channels() as nat, |i: int| 0int)
}

/// The image `data` with the colour `c` added to the pixel `(x, y)`.
pub open spec fn spec_added(data: Seq<int>, x: int, y: int, c: Point) -> Seq<int> {
    let i = spec_index(x, y);
    data.update(i, saturate(data[i] + c.x)).update(i + 1, saturate(data[i + 1] + c.y)).update(
        i + 2,
        saturate(data[i + 2] + c.z),
    )
}

/// The number of channels of the image.
fn total_channels() -> (r: usize)
    ensures
        r == spec_channels(),
{
    let w: usize = configuration::width as usize;
    let h: usize = configuration::height as usize;
    assert(w * h * 3 == 1_036_800) by (nonlinear_arith)
        requires
            w == 720,
            h == 480,
    ;
    assert(w * h == 345_600) by (nonlinear_arith)
        requires
            w == 720,
            h == 480,
    ;
    w * h * 3
}

/// The place of the first channel of the pixel `(x, y)`.
fn index_of(x: u32, y: u32) -> (r: usize)
    requires
        x < configuration::width,
        y < configuration::height,
    ensures
        r == spec_index(x as int, y as int),
        r + 2 < spec_channels(),
{
    let w: usize = configuration::width as usize;
    let row: usize = y as usize;
    assert(row * w <= 479 * 720) by (nonlinear_arith)
        requires
            w == 720,
            row <= 479,
    ;
    assert((row * w + x) * 3 + 2 < 720 * 480 * 3) by (nonlinear_arith)
        requires
            w == 720,
            row <= 479,
            x <= 719,
    ;
    (row * w + (x as usize)) * 3
}

/// A film with a chain of filters that every colour passes before it is
/// added to its pixel.
pub struct BasicFilm {
    data: Vec<Fixed>,
    filter: Vec<Filter>,
    post_processor: Vec<PostProcessor>,
}

impl View for BasicFilm {
    type V = Seq<int>;

    /// The raw channels of the image: three for every pixel, row by row.
    closed spec fn view(&self) -> Seq<int> {
        Seq::new(self.data@.len(), |i: int| self.data@[i]@)
    }
}

impl BasicFilm {
    /// Whether the film holds every channel of the image. A new film
    /// does, and nothing that a film offers changes that.
    pub closed spec fn spec_well_formed(&self) -> bool {
        self.data@.len() == spec_channels()
    }

    /// Whether the film holds every channel of the image.
    pub fn well_formed(&self) -> (r: bool)
        ensures
            r == self.spec_well_formed(),
    {
        self.data.len() == total_channels()
    }

    /// The filters of the film, in the order in which a colour passes them.
    pub closed spec fn spec_filters(&self) -> Seq<Filter> {
        self.filter@
    }

    /// What is done to the image when it is developed, in order.
    pub closed spec fn spec_post_processors(&self) -> Seq<PostProcessor> {
        self.post_processor@
    }

    /// A blank film behind the given filters, developed by the given steps.
    pub fn new(filter: Vec<Filter>, post_processor: Vec<PostProcessor>) -> (r: BasicFilm)
        ensures
            r.spec_well_formed(),
            r@ == spec_blank(),
            r.spec_filters() == filter@,
            r.spec_post_processors() == post_processor@,
    {
        let total: usize = total_channels();
        let mut data: Vec<Fixed> = Vec::new();
        let mut i: usize = 0;
        while i < total
            invariant
                i <= total,
                total == spec_channels(),
                data@.len() == i,
                forall|j: int| 0 <= j < i ==> (#[trigger] data@[j])@ == 0,
            decreases total - i,
        {
            data.push(Fixed::zero());
            i = i + 1;
        }
        let r = BasicFilm { data, filter, post_processor };
        assert(r@ =~= spec_blank());
        r
    }

    /// Passes `col` through the filters and adds it to the pixel `(x, y)`.
    pub fn write_pixel(&mut self, x: u32, y: u32, col: [Fixed; 3])
        requires
            old(self).spec_well_formed(),
            x < configuration::width,
            y < configuration::height,
        ensures
            final(self).spec_well_formed(),
            final(self).spec_filters() == old(self).spec_filters(),
            final(self).spec_post_processors() == old(self).spec_post_processors(),
            final(self)@ == spec_added(
                old(self)@,
                x as int,
                y as int,
                spec_filter_chain(
                    old(self).spec_filters(),
                    point_of(col),
                    old(self).spec_filters().len() as int,
                ),
            ),
    {
        let mut new_col: [Fixed; 3] = [col[0], col[1], col[2]];
        let mut i: usize = 0;
        while i < self.filter.len()
            invariant
                i <= self.filter.len(),
                point_of(new_col) == spec_filter_chain(self.filter@, point_of(col), i as int),
            decreases self.filter.len() - i,
        {
            new_col = self.filter[i].filter_color(x, y, new_col);
            i = i + 1;
        }
        let index: usize = index_of(x, y);
        let ghost before = self@;
        let r: Fixed = self.data[index].add(new_col[0]);
        let g: Fixed = self.data[index + 1].add(new_col[1]);
        let b: Fixed = self.data[index + 2].add(new_col[2]);
        self.data.set(index, r);
        self.data.set(index + 1, g);
        self.data.set(index + 2, b);
        assert(self@ =~= spec_added(before, x as int, y as int, point_of(new_col)));
    }

    /// Wipes the film: every channel goes back to zero.
    pub fn prepare_render(&mut self)
        requires
            old(self).spec_well_formed(),
        ensures
            final(self).spec_well_formed(),
            final(self)@ == spec_blank(),
            final(self).spec_filters() == old(self).spec_filters(),
            final(self).spec_post_processors() == old(self).spec_post_processors(),
    {
        let mut i: usize = 0;
        while i < self.data.len()
            invariant
                i <= self.data.len(),
                self.data@.len() == spec_channels(),
                self.filter == old(self).filter,
                self.post_processor == old(self).post_processor,
                forall|j: int| 0 <= j < i ==> (#[trigger] self.data@[j])@ == 0,
            decreases self.data.len() - i,
        {
            self.data.set(i, Fixed::zero());
            i = i + 1;
        }
        assert(self@ =~= spec_blank());
    }

    /// Refreshes the filters and the steps of development from `snapshot`;
    /// the image stays as it is.
    pub fn evaluate(&mut self, snapshot: &Snapshot)
        ensures
            final(self).spec_well_formed() == old(self).spec_well_formed(),
            final(self)@ == old(self)@,
            filters_resolve_to(old(self).spec_filters(), final(self).spec_filters(), snapshot),
            post_processors_resolve_to(
                old(self).spec_post_processors(),
                final(self).spec_post_processors(),
                snapshot,
            ),
    {
        let ghost before = self.filter@;
        let mut i: usize = 0;
        while i < self.filter.len()
            invariant
                i <= self.filter.len(),
                self.data == old(self).data,
                self.post_processor == old(self).post_processor,
                self.filter@.len() == before.len(),
                before == old(self).filter@,
                forall|j: int| i <= j < before.len() ==> self.filter@[j] == before[j],
                forall|j: int|
                    0 <= j < i ==> (#[trigger] before[j]).resolves_to(&self.filter@[j], snapshot),
            decreases self.filter.len() - i,
        {
            self.filter[i].evaluate(snapshot);
            i = i + 1;
        }
        let ghost steps = self.post_processor@;
        let mut k: usize = 0;
        while k < self.post_processor.len()
            invariant
                k <= self.post_processor.len(),
                self.data == old(self).data,
                filters_resolve_to(old(self).filter@, self.filter@, snapshot),
                self.post_processor@.len() == steps.len(),
                steps == old(self).post_processor@,
                forall|j: int| k <= j < steps.len() ==> self.post_processor@[j] == steps[j],
                forall|j: int|
                    0 <= j < k ==> (#[trigger] steps[j]).resolves_to(
                        &self.post_processor@[j],
                        snapshot,
                    ),
            decreases self.post_processor.len() - k,
        {
            self.post_processor[k].evaluate(snapshot);
            k = k + 1;
        }
    }

    /// The image after every step of development, in order. The film
    /// itself stays as it is.
    pub fn develop(&self) -> (r: Vec<Fixed>)
        requires
            self.spec_well_formed(),
        ensures
            r@.len() == spec_channels(),
            raw_values(r@) == spec_developed(
                self.spec_post_processors(),
                self@,
                self.spec_post_processors().len() as int,
            ),
    {
        let mut new_data: Vec<Fixed> = Vec::new();
        let mut i: usize = 0;
        while i < self.data.len()
            invariant
                i <= self.data.len(),
                new_data@.len() == i,
                forall|j: int| 0 <= j < i ==> #[trigger] new_data@[j] == self.data@[j],
            decreases self.data.len() - i,
        {
            new_data.push(self.data[i]);
            i = i + 1;
        }
        assert(raw_values(new_data@) =~= self@);
        let mut k: usize = 0;
        while k < self.post_processor.len()
            invariant
                k <= self.post_processor.len(),
                new_data@.len() == spec_channels(),
                raw_values(new_data@) == spec_developed(self.post_processor@, self@, k as int),
            decreases self.post_processor.len() - k,
        {
            new_data = self.post_processor[k].process_image(new_data);
            k = k + 1;
        }
        new_data
    }

    /// The developed image as bytes: two for every channel, the low byte first.
    pub fn save_bytes(&self) -> (r: Vec<u8>)
        requires
            self.spec_well_formed(),
        ensures
            r@ == spec_bytes(
                spec_developed(
                    self.spec_post_processors(),
                    self@,
                    self.spec_post_processors().len() as int,
                ),
            ),
    {
        let developed: Vec<Fixed> = self.develop();
        to_bytes(&developed)
    }

    /// The channel at place `i` of the image.
    pub fn channel(&self, i: usize) -> (r: Fixed)
        requires
            self.spec_well_formed(),
            i < spec_channels(),
        ensures
            r@ == self@[i as int],
    {
        self.data[i]
    }

    /// The colour that the pixel `(x, y)` has gathered.
    pub fn pixel(&self, x: u32, y: u32) -> (r: [Fixed; 3])
        requires
            self.spec_well_formed(),
            x < configuration::width,
            y < configuration::height,
        ensures
            r[0]@ == self@[spec_index(x as int, y as int)],
            r[1]@ == self@[spec_index(x as int, y as int) + 1],
            r[2]@ == self@[spec_index(x as int, y as int) + 2],
    {
        let index: usize = index_of(x, y);
        [self.data[index], self.data[index + 1], self.data[index + 2]]
    }

    /// The number of channels of the image.
    pub fn channels(&self) -> (r: usize)
        requires
            self.spec_well_formed(),
        ensures
            r == spec_channels(),
            r == self@.len(),
    {
        self.data.len()
    }
}

/// Whether `new` is the row of steps `old` with every step refreshed from `snapshot`.
pub open spec fn post_processors_resolve_to(
    old: Seq<PostProcessor>,
    new: Seq<PostProcessor>,
    snapshot: &Snapshot,
) -> bool {
    &&& new.len() == old.len()
    &&& forall|i: int| 0 <= i < old.len() ==> (#[trigger] old[i]).resolves_to(&new[i], snapshot)
}

/// The image after the first `k` steps of development.
pub open spec fn spec_developed(steps: Seq<PostProcessor>, data: Seq<int>, k: int) -> Seq<int>
    decreases k,
{
    if k <= 0 {
        data
    } else {
        steps[k - 1].spec_process(spec_developed(steps, data, k - 1))
    }
}

/// A channel as a number of sixteen bits: the whole part of 65536 times
/// the channel, kept within `0 ..= 65535`.
pub open spec fn spec_sixteen(v: int) -> int {
    spec_clamp(v * 65536 / (SCALE as int), 0, 65535)
}

/// An image as bytes: two for every channel, the low byte first.
pub open spec fn spec_bytes(data: Seq<int>) -> Seq<u8> {
    Seq::new(
        data.len() * 2,
        |i: int|
            if i % 2 == 0 {
                (spec_sixteen(data[i / 2]) % 256) as u8
            } else {
                (spec_sixteen(data[i / 2]) / 256) as u8
            },
    )
}

/// An image as bytes: two for every channel, the low byte first.
pub fn to_bytes(data: &Vec<Fixed>) -> (r: Vec<u8>)
    ensures
        r@ == spec_bytes(raw_values(data@)),
{
    let mut buff8: Vec<u8> = Vec::new();
    let mut i: usize = 0;
    while i < data.len()
        invariant
            i <= data.len(),
            buff8@.len() == 2 * i,
            forall|j: int|
                0 <= j < 2 * i ==> #[trigger] buff8@[j] == spec_bytes(raw_values(data@))[j],
        decreases data.len() - i,
    {
        let raw: i128 = data[i].raw() as i128;
        proof {
            lemma_mul_bounds(raw as int, 65536, LIMIT as int, 65536);
        }
        let scaled: i128 = floor_div(raw * 65536, SCALE as i128);
        let v: u16 = if scaled < 0 {
            0
        } else if scaled > 65535 {
            65535
        } else {
            scaled as u16
        };
        assert(v == spec_sixteen(raw_values(data@)[i as int]));
        buff8.push((v % 256) as u8);
        buff8.push((v / 256) as u8);
        i = i + 1;
    }
    assert(buff8@ =~= spec_bytes(raw_values(data@)));
    buff8
}

} // verus!
