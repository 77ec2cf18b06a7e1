//! The style record.

use crate::decimal::{Decimal, Number};
use vstd::prelude::*;

verus! {

/// A beer style as a mathematical value: its name and the ranges that define
/// it.
pub struct StyleView {
    pub name: Seq<char>,
    pub abv_low: Number,
    pub abv_high: Number,
    pub ibu_low: int,
    pub ibu_high: int,
    pub srm_low: Number,
    pub srm_high: Number,
    pub original_gravity_low: Number,
    pub original_gravity_high: Number,
    pub final_gravity_low: Number,
    pub final_gravity_high: Number,
}

impl StyleView {
    /// The value is one that a [`Style`] can hold. Nothing is asked of the
    /// order of a range's two ends.
    pub open spec fn valid(self) -> bool {
        &&& self.abv_low.valid()
        &&& self.abv_high.valid()
        &&& i32::MIN <= self.ibu_low <= i32::MAX
        &&& i32::MIN <= self.ibu_high <= i32::MAX
        &&& self.srm_low.valid()
        &&& self.srm_high.valid()
        &&& self.original_gravity_low.valid()
        &&& self.original_gravity_high.valid()
        &&& self.final_gravity_low.valid()
        &&& self.final_gravity_high.valid()
    }
}

/// One beer style: its name, by which it is found in the store, and its
/// ranges of alcohol by volume, bitterness, colour, original gravity and final
/// gravity.
#[derive(Debug, Eq)]
pub struct Style {
    name: String,
    abv_low: Decimal,
    abv_high: Decimal,
    ibu_low: i32,
    ibu_high: i32,
    srm_low: Decimal,
    srm_high: Decimal,
    original_gravity_low: Decimal,
    original_gravity_high: Decimal,
    final_gravity_low: Decimal,
    final_gravity_high: Decimal,
}

impl View for Style {
    type V = StyleView;

    closed spec fn view(&self) -> StyleView {
        StyleView {
            name: self.name@,
            abv_low: self.abv_low@,
            abv_high: self.abv_high@,
            ibu_low: self.ibu_low as int,
            ibu_high: self.ibu_high as int,
            srm_low: self.srm_low@,
            srm_high: self.srm_high@,
            original_gravity_low: self.original_gravity_low@,
            original_gravity_high: self.original_gravity_high@,
            final_gravity_low: self.final_gravity_low@,
            final_gravity_high: self.final_gravity_high@,
        }
    }
}

impl DeepView for Style {
    type V = StyleView;

    open spec fn deep_view(&self) -> StyleView {
        self@
    }
}

impl Style {
    /// What holds of every style: it holds a valid value.
    #[verifier::type_invariant]
    pub open spec fn well_formed(self) -> bool {
        self@.valid()
    }

    /// A style of the given name and ranges.
    pub fn new(
        name: String,
        abv_low: Decimal,
        abv_high: Decimal,
        ibu_low: i32,
        ibu_high: i32,
        srm_low: Decimal,
        srm_high: Decimal,
        original_gravity_low: Decimal,
        original_gravity_high: Decimal,
        final_gravity_low: Decimal,
        final_gravity_high: Decimal,
    ) -> (style: Style)
        ensures
            style@ == (StyleView {
                name: name@,
                abv_low: abv_low@,
                abv_high: abv_high@,
                ibu_low: ibu_low as int,
                ibu_high: ibu_high as int,
                srm_low: srm_low@,
                srm_high: srm_high@,
                original_gravity_low: original_gravity_low@,
                original_gravity_high: original_gravity_high@,
                final_gravity_low: final_gravity_low@,
                final_gravity_high: final_gravity_high@,
            }),
            style.well_formed(),
    {
        proof {
            use_type_invariant(&abv_low);
            use_type_invariant(&abv_high);
            use_type_invariant(&srm_low);
            use_type_invariant(&srm_high);
            use_type_invariant(&original_gravity_low);
            use_type_invariant(&original_gravity_high);
            use_type_invariant(&final_gravity_low);
            use_type_invariant(&final_gravity_high);
        }
        Style {
            name: name,
            abv_low: abv_low,
            abv_high: abv_high,
            ibu_low: ibu_low,
            ibu_high: ibu_high,
            srm_low: srm_low,
            srm_high: srm_high,
            original_gravity_low: original_gravity_low,
            original_gravity_high: original_gravity_high,
            final_gravity_low: final_gravity_low,
            final_gravity_high: final_gravity_high,
        }
    }

    /// The name of the style.
    pub fn get_name(&self) -> (name: &String)
        ensures
            name@ == self@.name,
    {
        &self.name
    }

    /// The lower end of the range of alcohol by volume, in percent.
    pub fn get_abv_low(&self) -> (value: &Decimal)
        ensures
            value@ == self@.abv_low,
    {
        &self.abv_low
    }

    /// The upper end of the range of alcohol by volume, in percent.
    pub fn get_abv_high(&self) -> (value: &Decimal)
        ensures
            value@ == self@.abv_high,
    {
        &self.abv_high
    }

    /// The lower end of the range of bitterness units.
    pub fn get_ibu_low(&self) -> (value: &i32)
        ensures
            *value == self@.ibu_low,
    {
        &self.ibu_low
    }

    /// The upper end of the range of bitterness units.
    pub fn get_ibu_high(&self) -> (value: &i32)
        ensures
            *value == self@.ibu_high,
    {
        &self.ibu_high
    }

    /// The lower end of the range of colour.
    pub fn get_srm_low(&self) -> (value: &Decimal)
        ensures
            value@ == self@.srm_low,
    {
        &self.srm_low
    }

    /// The upper end of the range of colour.
    pub fn get_srm_high(&self) -> (value: &Decimal)
        ensures
            value@ == self@.srm_high,
    {
        &self.srm_high
    }

    /// The lower end of the range of original gravity.
    pub fn get_original_gravity_low(&self) -> (value: &Decimal)
        ensures
            value@ == self@.original_gravity_low,
    {
        &self.original_gravity_low
    }

    /// The upper end of the range of original gravity.
    pub fn get_original_gravity_high(&self) -> (value: &Decimal)
        ensures
            value@ == self@.original_gravity_high,
    {
        &self.original_gravity_high
    }

    /// The lower end of the range of final gravity.
    pub fn get_final_gravity_low(&self) -> (value: &Decimal)
        ensures
            value@ == self@.final_gravity_low,
    {
        &self.final_gravity_low
    }

    /// The upper end of the range of final gravity.
    pub fn get_final_gravity_high(&self) -> (value: &Decimal)
        ensures
            value@ == self@.final_gravity_high,
    {
        &self.final_gravity_high
    }
}

impl Clone for Style {
    fn clone(&self) -> (copy: Style)
        ensures
            copy@ == self@,
    {
        proof {
            use_type_invariant(self);
        }
        Style {
            name: self.name.clone(),
            abv_low: self.abv_low,
            abv_high: self.abv_high,
            ibu_low: self.ibu_low,
            ibu_high: self.ibu_high,
            srm_low: self.srm_low,
            srm_high: self.srm_high,
            original_gravity_low: self.original_gravity_low,
            original_gravity_high: self.original_gravity_high,
            final_gravity_low: self.final_gravity_low,
            final_gravity_high: self.final_gravity_high,
        }
    }
}

impl PartialEq for Style {
    /// Two styles are equal where each of the eleven attributes is.
    fn eq(&self, other: &Style) -> (r: bool) {
        self.name == other.name && self.abv_low == other.abv_low && self.abv_high
            == other.abv_high && self.ibu_low == other.ibu_low && self.ibu_high == other.ibu_high
            && self.srm_low == other.srm_low && self.srm_high == other.srm_high
            && self.original_gravity_low == other.original_gravity_low
            && self.original_gravity_high == other.original_gravity_high
            && self.final_gravity_low == other.final_gravity_low && self.final_gravity_high
            == other.final_gravity_high
    }
}

impl vstd::std_specs::cmp::PartialEqSpecImpl for Style {
    open spec fn obeys_eq_spec() -> bool {
        true
    }

    open spec fn eq_spec(&self, other: &Style) -> bool {
        self@ == other@
    }
}

} // verus!
