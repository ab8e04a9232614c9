//! Choices made about the Vulkan device: which queue family runs compute
//! work, which memory type backs an allocation, and how a device is reported.
use vstd::prelude::*;

verus! {

/// `ash::vk::api_version_major`: bits 22 to 28 of a packed Vulkan version.
pub assume_specification[ ash::vk::api_version_major ](version: u32) -> (r: u32)
    ensures
        r == (version >> 22u32) & 0x7fu32,
;

/// `ash::vk::api_version_minor`: bits 12 to 21 of a packed Vulkan version.
pub assume_specification[ ash::vk::api_version_minor ](version: u32) -> (r: u32)
    ensures
        r == (version >> 12u32) & 0x3ffu32,
;

/// `ash::vk::api_version_patch`: bits 0 to 11 of a packed Vulkan version.
pub assume_specification[ ash::vk::api_version_patch ](version: u32) -> (r: u32)
    ensures
        r == version & 0xfffu32,
;

/// What is reported about a Vulkan physical device.
#[derive(Debug)]
pub struct PhysicalDeviceInfo {
    pub name: String,
    pub device_type: String,
    pub vendor_id: u32,
    pub device_id: u32,
    pub api_version: (u32, u32, u32),
    pub driver_version: u32,
    pub queue_family_count: usize,
}

/// The major, minor and patch numbers of a packed Vulkan version.
pub open spec fn version_parts(version: u32) -> (u32, u32, u32) {
    ((version >> 22u32) & 0x7fu32, (version >> 12u32) & 0x3ffu32, version & 0xfffu32)
}

/// Unpacking inverts packing: a version packed as `major << 22 | minor << 12
/// | patch`, with each part within its bits, is reported as `(major, minor,
/// patch)`.
pub proof fn lemma_version_unpacks_packed_parts(major: u32, minor: u32, patch: u32)
    requires
        major < 128,
        minor < 1024,
        patch < 4096,
    ensures
        version_parts((major << 22u32) | (minor << 12u32) | patch) == (major, minor, patch),
{
    let v = (major << 22u32) | (minor << 12u32) | patch;
    assert((v >> 22u32) & 0x7fu32 == major) by (bit_vector)
        requires
            v == (major << 22u32) | (minor << 12u32) | patch,
            major < 128,
            minor < 1024,
            patch < 4096,
    ;
    assert((v >> 12u32) & 0x3ffu32 == minor) by (bit_vector)
        requires
            v == (major << 22u32) | (minor << 12u32) | patch,
            major < 128,
            minor < 1024,
            patch < 4096,
    ;
    assert(v & 0xfffu32 == patch) by (bit_vector)
        requires
            v == (major << 22u32) | (minor << 12u32) | patch,
            major < 128,
            minor < 1024,
            patch < 4096,
    ;
}

impl PhysicalDeviceInfo {
    /// The report of a device whose API version is given packed.
    pub fn from_properties(
        name: String,
        device_type: String,
        vendor_id: u32,
        device_id: u32,
        api_version: u32,
        driver_version: u32,
        queue_family_count: usize,
    ) -> (info: PhysicalDeviceInfo)
        ensures
            info.name == name,
            info.device_type == device_type,
            info.vendor_id == vendor_id,
            info.device_id == device_id,
            info.api_version == version_parts(api_version),
            forall|major: u32, minor: u32, patch: u32|
                #![trigger (major << 22u32) | (minor << 12u32) | patch]
                major < 128 && minor < 1024 && patch < 4096 && api_version == (major << 22u32) | (
                minor << 12u32) | patch ==> info.api_version == (major, minor, patch),
            info.driver_version == driver_version,
            info.queue_family_count == queue_family_count,
    {
        proof {
            assert forall|major: u32, minor: u32, patch: u32|
                major < 128 && minor < 1024 && patch < 4096 && api_version == (major << 22u32) | (
                minor << 12u32) | patch implies version_parts(api_version) == (major, minor, patch) by {
                lemma_version_unpacks_packed_parts(major, minor, patch);
            }
        }
        PhysicalDeviceInfo {
            name,
            device_type,
            vendor_id,
            device_id,
            api_version: (
                ash::vk::api_version_major(api_version),
                ash::vk::api_version_minor(api_version),
                ash::vk::api_version_patch(api_version),
            ),
            driver_version,
            queue_family_count,
        }
    }
}

/// What a queue family offers.
#[derive(Clone, Copy, Debug, PartialEq, Eq, Structural)]
pub struct QueueFamily {
    pub queue_count: u32,
    pub compute: bool,
    pub graphics: bool,
}

/// A family with queues that run compute work and not graphics work.
pub open spec fn dedicated_compute(f: QueueFamily) -> bool {
    f.queue_count > 0 && f.compute && !f.graphics
}

/// A family with queues that run compute work.
pub open spec fn any_compute(f: QueueFamily) -> bool {
    f.queue_count > 0 && f.compute
}

/// The family suits the search: dedicated compute, or any compute.
pub open spec fn suits(f: QueueFamily, dedicated: bool) -> bool {
    if dedicated {
        dedicated_compute(f)
    } else {
        any_compute(f)
    }
}

/// No family of device `d` suits the search.
pub open spec fn device_unsuited(devices: Seq<Vec<QueueFamily>>, d: int, dedicated: bool) -> bool {
    forall|f: int| 0 <= f < devices[d]@.len() ==> !suits(#[trigger] devices[d]@[f], dedicated)
}

/// `(d, f)` is the first family, of the first device that has one, that
/// suits the search.
pub open spec fn first_suitable(devices: Seq<Vec<QueueFamily>>, d: int, f: int, dedicated: bool) -> bool {
    &&& 0 <= d < devices.len()
    &&& 0 <= f < devices[d]@.len()
    &&& suits(devices[d]@[f], dedicated)
    &&& forall|e: int| 0 <= e < d ==> device_unsuited(devices, e, dedicated)
    &&& forall|g: int| 0 <= g < f ==> !suits(#[trigger] devices[d]@[g], dedicated)
}

/// Searches the devices in order for a suitable family.
fn find_family(devices: &Vec<Vec<QueueFamily>>, dedicated: bool) -> (r: Option<(usize, usize)>)
    ensures
        match r {
            Some((d, f)) => first_suitable(devices@, d as int, f as int, dedicated),
            None => forall|e: int| 0 <= e < devices@.len() ==> device_unsuited(devices@, e, dedicated),
        },
{
    let mut d: usize = 0;
    while d < devices.len()
        invariant
            d <= devices@.len(),
            forall|e: int| 0 <= e < d ==> device_unsuited(devices@, e, dedicated),
        decreases devices@.len() - d,
    {
        let families = &devices[d];
        let mut f: usize = 0;
        while f < families.len()
            invariant
                d < devices@.len(),
                *families == devices@[d as int],
                forall|e: int| 0 <= e < d ==> device_unsuited(devices@, e, dedicated),
                f <= families@.len(),
                forall|g: int| 0 <= g < f ==> !suits(#[trigger] families@[g], dedicated),
            decreases families@.len() - f,
        {
            let family = families[f];
            let fits = if dedicated {
                family.queue_count > 0 && family.compute && !family.graphics
            } else {
                family.queue_count > 0 && family.compute
            };
            if fits {
                return Some((d, f));
            }
            f = f + 1;
        }
        d = d + 1;
    }
    None
}

/// Chooses the device and queue family for compute work: the first family
/// that runs compute and not graphics work, else the first that runs compute
/// work. Each is searched device by device, in order.
pub fn select_compute_queue(devices: &Vec<Vec<QueueFamily>>) -> (r: Option<(usize, usize)>)
    ensures
        match r {
            Some((d, f)) => first_suitable(devices@, d as int, f as int, true) || (
            first_suitable(devices@, d as int, f as int, false) && forall|e: int|
                0 <= e < devices@.len() ==> device_unsuited(devices@, e, true)),
            None => forall|e: int| 0 <= e < devices@.len() ==> device_unsuited(devices@, e, false),
        },
{
    match find_family(devices, true) {
        Some(found) => Some(found),
        None => find_family(devices, false),
    }
}

/// Bit `i` of the filter is set.
pub open spec fn bit_set(filter: u32, i: int) -> bool {
    filter & (1u32 << (i as u32)) != 0
}

/// All bits of `required` are set in `flags`.
pub open spec fn has_all(flags: u32, required: u32) -> bool {
    flags & required == required
}

/// Memory type `i` is allowed by the filter and has the required properties.
pub open spec fn acceptable(types: Seq<u32>, filter: u32, required: u32, i: int) -> bool {
    bit_set(filter, i) && has_all(types[i], required)
}

/// Memory type `i` is acceptable and also has the preferred properties.
pub open spec fn preferable(types: Seq<u32>, filter: u32, required: u32, preferred: u32, i: int) -> bool {
    acceptable(types, filter, required, i) && has_all(types[i], preferred)
}

/// Chooses a memory type, given the property flags of each type: the first
/// acceptable type with the preferred properties, else the last acceptable
/// type. Returns its index and flags.
pub fn find_memory_type(types: &Vec<u32>, filter: u32, required: u32, preferred: u32) -> (r: Option<
    (u32, u32),
>)
    requires
        types@.len() <= 32,
    ensures
        match r {
            Some((index, flags)) => {
                &&& index < types@.len()
                &&& flags == types@[index as int]
                &&& acceptable(types@, filter, required, index as int)
                &&& {
                    ||| (preferable(types@, filter, required, preferred, index as int) && forall|j: int|
                        0 <= j < index ==> !preferable(types@, filter, required, preferred, j))
                    ||| (forall|j: int|
                        0 <= j < types@.len() ==> !preferable(types@, filter, required, preferred, j))
                        && forall|j: int|
                        index < j < types@.len() ==> !acceptable(types@, filter, required, j)
                }
            },
            None => forall|j: int| 0 <= j < types@.len() ==> !acceptable(types@, filter, required, j),
        },
{
    let mut fallback: Option<(u32, u32)> = None;
    let mut i: usize = 0;
    while i < types.len()
        invariant
            types@.len() <= 32,
            i <= types@.len(),
            forall|j: int| 0 <= j < i ==> !preferable(types@, filter, required, preferred, j),
            match fallback {
                Some((index, flags)) => index < i && flags == types@[index as int] && acceptable(
                    types@,
                    filter,
                    required,
                    index as int,
                ) && forall|j: int| index < j < i ==> !acceptable(types@, filter, required, j),
                None => forall|j: int| 0 <= j < i ==> !acceptable(types@, filter, required, j),
            },
        decreases types@.len() - i,
    {
        let flags = types[i];
        let index = i as u32;
        if filter & (1u32 << index) != 0 && flags & required == required {
            if flags & preferred == preferred {
                return Some((index, flags));
            }
            fallback = Some((index, flags));
        }
        i = i + 1;
    }
    fallback
}

} // verus!
