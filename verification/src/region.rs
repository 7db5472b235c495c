//! Provider regions and their names.

use vstd::prelude::*;
use crate::text::same_text;

verus! {

/// A region of the provider.
#[derive(Clone, Copy, Debug, PartialEq, Eq, Structural)]
pub enum Region {
    ApNortheast1,
    ApNortheast2,
    ApSouth1,
    ApSoutheast1,
    ApSoutheast2,
    CaCentral1,
    EuCentral1,
    EuWest1,
    EuWest2,
    EuWest3,
    SaEast1,
    UsEast1,
    UsEast2,
    UsWest1,
    UsWest2,
    UsGovWest1,
    CnNorth1,
    CnNorthwest1,
}

/// The lower-case form of a string, as `str::to_lowercase` computes it.
pub uninterp spec fn lowercase_of(s: Seq<char>) -> Seq<char>;

/// Calls `str::to_lowercase`. The result is a function of the characters
/// of `s` alone; nothing more is claimed of it.
#[verifier::external_body]
fn lowercase(s: &str) -> (r: String)
    ensures
        r@ == lowercase_of(s@),
{
    s.to_lowercase()
}

/// The region that a lower-case name stands for. Each region has two
/// names: the provider's, with hyphens, and the same without them.
pub open spec fn named_region(name: Seq<char>) -> Option<Region> {
    if name == "ap-northeast-1"@ || name == "apnortheast1"@ {
        Some(Region::ApNortheast1)
    } else if name == "ap-northeast-2"@ || name == "apnortheast2"@ {
        Some(Region::ApNortheast2)
    } else if name == "ap-south-1"@ || name == "apsouth1"@ {
        Some(Region::ApSouth1)
    } else if name == "ap-southeast-1"@ || name == "apsoutheast1"@ {
        Some(Region::ApSoutheast1)
    } else if name == "ap-southeast-2"@ || name == "apsoutheast2"@ {
        Some(Region::ApSoutheast2)
    } else if name == "ca-central-1"@ || name == "cacentral1"@ {
        Some(Region::CaCentral1)
    } else if name == "eu-central-1"@ || name == "eucentral1"@ {
        Some(Region::EuCentral1)
    } else if name == "eu-west-1"@ || name == "euwest1"@ {
        Some(Region::EuWest1)
    } else if name == "eu-west-2"@ || name == "euwest2"@ {
        Some(Region::EuWest2)
    } else if name == "eu-west-3"@ || name == "euwest3"@ {
        Some(Region::EuWest3)
    } else if name == "sa-east-1"@ || name == "saeast1"@ {
        Some(Region::SaEast1)
    } else if name == "us-east-1"@ || name == "useast1"@ {
        Some(Region::UsEast1)
    } else if name == "us-east-2"@ || name == "useast2"@ {
        Some(Region::UsEast2)
    } else if name == "us-west-1"@ || name == "uswest1"@ {
        Some(Region::UsWest1)
    } else if name == "us-west-2"@ || name == "uswest2"@ {
        Some(Region::UsWest2)
    } else if name == "us-gov-west-1"@ || name == "usgovwest1"@ {
        Some(Region::UsGovWest1)
    } else if name == "cn-north-1"@ || name == "cnnorth1"@ {
        Some(Region::CnNorth1)
    } else if name == "cn-northwest-1"@ || name == "cnnorthwest1"@ {
        Some(Region::CnNorthwest1)
    } else {
        None
    }
}

/// The answer for a lower-case name: the region it stands for, or the
/// default region, `us-east-1`, as an error.
pub open spec fn region_answer(name: Seq<char>) -> Result<Region, Region> {
    match named_region(name) {
        Some(r) => Ok(r),
        None => Err(Region::UsEast1),
    }
}

fn is_either(name: &str, a: &str, b: &str) -> (r: bool)
    ensures
        r == (name@ == a@ || name@ == b@),
{
    same_text(name, a) || same_text(name, b)
}

/// The region that a lower-case name stands for; an unknown name gives the
/// default region as an error.
pub fn region_of_name(name: &str) -> (r: Result<Region, Region>)
    ensures
        r == region_answer(name@),
{
    if is_either(name, "ap-northeast-1", "apnortheast1") {
        Ok(Region::ApNortheast1)
    } else if is_either(name, "ap-northeast-2", "apnortheast2") {
        Ok(Region::ApNortheast2)
    } else if is_either(name, "ap-south-1", "apsouth1") {
        Ok(Region::ApSouth1)
    } else if is_either(name, "ap-southeast-1", "apsoutheast1") {
        Ok(Region::ApSoutheast1)
    } else if is_either(name, "ap-southeast-2", "apsoutheast2") {
        Ok(Region::ApSoutheast2)
    } else if is_either(name, "ca-central-1", "cacentral1") {
        Ok(Region::CaCentral1)
    } else if is_either(name, "eu-central-1", "eucentral1") {
        Ok(Region::EuCentral1)
    } else if is_either(name, "eu-west-1", "euwest1") {
        Ok(Region::EuWest1)
    } else if is_either(name, "eu-west-2", "euwest2") {
        Ok(Region::EuWest2)
    } else if is_either(name, "eu-west-3", "euwest3") {
        Ok(Region::EuWest3)
    } else if is_either(name, "sa-east-1", "saeast1") {
        Ok(Region::SaEast1)
    } else if is_either(name, "us-east-1", "useast1") {
        Ok(Region::UsEast1)
    } else if is_either(name, "us-east-2", "useast2") {
        Ok(Region::UsEast2)
    } else if is_either(name, "us-west-1", "uswest1") {
        Ok(Region::UsWest1)
    } else if is_either(name, "us-west-2", "uswest2") {
        Ok(Region::UsWest2)
    } else if is_either(name, "us-gov-west-1", "usgovwest1") {
        Ok(Region::UsGovWest1)
    } else if is_either(name, "cn-north-1", "cnnorth1") {
        Ok(Region::CnNorth1)
    } else if is_either(name, "cn-northwest-1", "cnnorthwest1") {
        Ok(Region::CnNorthwest1)
    } else {
        Err(Region::UsEast1)
    }
}

/// The region that a name stands for, whatever its case; an unknown name
/// gives the default region as an error.
pub fn parse_region(s: &str) -> (r: Result<Region, Region>)
    ensures
        r == region_answer(lowercase_of(s@)),
{
    let lower = lowercase(s);
    region_of_name(lower.as_str())
}

impl Region {
    pub open spec fn name_of(self) -> Seq<char> {
        match self {
            Region::ApNortheast1 => "ap-northeast-1"@,
            Region::ApNortheast2 => "ap-northeast-2"@,
            Region::ApSouth1 => "ap-south-1"@,
            Region::ApSoutheast1 => "ap-southeast-1"@,
            Region::ApSoutheast2 => "ap-southeast-2"@,
            Region::CaCentral1 => "ca-central-1"@,
            Region::EuCentral1 => "eu-central-1"@,
            Region::EuWest1 => "eu-west-1"@,
            Region::EuWest2 => "eu-west-2"@,
            Region::EuWest3 => "eu-west-3"@,
            Region::SaEast1 => "sa-east-1"@,
            Region::UsEast1 => "us-east-1"@,
            Region::UsEast2 => "us-east-2"@,
            Region::UsWest1 => "us-west-1"@,
            Region::UsWest2 => "us-west-2"@,
            Region::UsGovWest1 => "us-gov-west-1"@,
            Region::CnNorth1 => "cn-north-1"@,
            Region::CnNorthwest1 => "cn-northwest-1"@,
        }
    }

    /// The provider's name for the region.
    pub fn name(&self) -> (r: &'static str)
        ensures
            r@ == self.name_of(),
    {
        match self {
            Region::ApNortheast1 => "ap-northeast-1",
            Region::ApNortheast2 => "ap-northeast-2",
            Region::ApSouth1 => "ap-south-1",
            Region::ApSoutheast1 => "ap-southeast-1",
            Region::ApSoutheast2 => "ap-southeast-2",
            Region::CaCentral1 => "ca-central-1",
            Region::EuCentral1 => "eu-central-1",
            Region::EuWest1 => "eu-west-1",
            Region::EuWest2 => "eu-west-2",
            Region::EuWest3 => "eu-west-3",
            Region::SaEast1 => "sa-east-1",
            Region::UsEast1 => "us-east-1",
            Region::UsEast2 => "us-east-2",
            Region::UsWest1 => "us-west-1",
            Region::UsWest2 => "us-west-2",
            Region::UsGovWest1 => "us-gov-west-1",
            Region::CnNorth1 => "cn-north-1",
            Region::CnNorthwest1 => "cn-northwest-1",
        }
    }
}

} // verus!
