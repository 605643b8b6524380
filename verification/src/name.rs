use vstd::prelude::*;

verus! {

/// A bit-packed 64-bit ISO NAME, fields laid out MSB-first.
pub struct Name {
    name: u64,
}

/// Whether the device can claim an arbitrary address: bit 63.
pub open spec fn spec_arbitrary_address_capable(v: u64) -> bool {
    v & 0x8000_0000_0000_0000 > 0
}

/// Industry group: 3 bits at 60.
pub open spec fn spec_industry_group(v: u64) -> u8 {
    ((v >> 60) & 0x07) as u8
}

/// Vehicle system instance: 4 bits at 56.
pub open spec fn spec_vehicle_system_instance(v: u64) -> u8 {
    ((v >> 56) & 0x0f) as u8
}

/// Vehicle system: 7 bits at 49; bit 48 is reserved.
pub open spec fn spec_vehicle_system(v: u64) -> u8 {
    ((v >> 49) & 0x7f) as u8
}

/// Function: 8 bits at 40.
pub open spec fn spec_function(v: u64) -> u8 {
    ((v >> 40) & 0xff) as u8
}

/// Function instance: 5 bits at 35.
pub open spec fn spec_function_instance(v: u64) -> u8 {
    ((v >> 35) & 0x1f) as u8
}

/// ECU instance: 3 bits at 32.
pub open spec fn spec_ecu_instance(v: u64) -> u8 {
    ((v >> 32) & 0x07) as u8
}

/// Manufacturer code: 11 bits at 21.
pub open spec fn spec_manufacturer_code(v: u64) -> u16 {
    ((v >> 21) & 0x07ff) as u16
}

/// Identity number: the low 21 bits.
pub open spec fn spec_identity_number(v: u64) -> u32 {
    (v & 0x1f_ffff) as u32
}

/// The 64-bit NAME packed from its fields.
pub open spec fn spec_pack_name(
    arbitrary_address_capable: bool,
    industry_group: u8,
    vehicle_system_instance: u8,
    vehicle_system: u8,
    function: u8,
    function_instance: u8,
    ecu_instance: u8,
    manufacturer_code: u16,
    identity_number: u32,
) -> u64 {
    (if arbitrary_address_capable {
        0x8000_0000_0000_0000u64
    } else {
        0u64
    }) | ((industry_group as u64) << 60) | ((vehicle_system_instance as u64) << 56) | ((
    vehicle_system as u64) << 49) | ((function as u64) << 40) | ((function_instance as u64) << 35)
        | ((ecu_instance as u64) << 32) | ((manufacturer_code as u64) << 21) | (identity_number
        as u64)
}

/// Packing fields that fit their declared widths and reading them back gives
/// every field unchanged.
pub proof fn lemma_name_round_trip(
    aac: bool,
    ig: u8,
    vsi: u8,
    vs: u8,
    f: u8,
    fi: u8,
    ecu: u8,
    mfr: u16,
    idn: u32,
)
    by (bit_vector)
    requires
        ig < 8,
        vsi < 16,
        vs < 128,
        fi < 32,
        ecu < 8,
        mfr < 2048,
        idn < 0x20_0000,
    ensures
        spec_arbitrary_address_capable(spec_pack_name(aac, ig, vsi, vs, f, fi, ecu, mfr, idn))
            == aac,
        spec_industry_group(spec_pack_name(aac, ig, vsi, vs, f, fi, ecu, mfr, idn)) == ig,
        spec_vehicle_system_instance(spec_pack_name(aac, ig, vsi, vs, f, fi, ecu, mfr, idn))
            == vsi,
        spec_vehicle_system(spec_pack_name(aac, ig, vsi, vs, f, fi, ecu, mfr, idn)) == vs,
        spec_function(spec_pack_name(aac, ig, vsi, vs, f, fi, ecu, mfr, idn)) == f,
        spec_function_instance(spec_pack_name(aac, ig, vsi, vs, f, fi, ecu, mfr, idn)) == fi,
        spec_ecu_instance(spec_pack_name(aac, ig, vsi, vs, f, fi, ecu, mfr, idn)) == ecu,
        spec_manufacturer_code(spec_pack_name(aac, ig, vsi, vs, f, fi, ecu, mfr, idn)) == mfr,
        spec_identity_number(spec_pack_name(aac, ig, vsi, vs, f, fi, ecu, mfr, idn)) == idn,
{
}

impl View for Name {
    type V = u64;

    closed spec fn view(&self) -> u64 {
        self.name
    }
}

impl Name {
    /// Packs the fields of an ISO NAME, each into its own bits.
    pub fn new(
        arbitrary_address_capable: bool,
        industry_group: u8,
        vehicle_system_instance: u8,
        vehicle_system: u8,
        function: u8,
        function_instance: u8,
        ecu_instance: u8,
        manufacturer_code: u16,
        identity_number: u32,
    ) -> (r: Name)
        requires
            industry_group < 8,
            vehicle_system_instance < 16,
            vehicle_system < 128,
            function_instance < 32,
            ecu_instance < 8,
            manufacturer_code < 2048,
            identity_number < 0x20_0000,
        ensures
            r@ == spec_pack_name(
                arbitrary_address_capable,
                industry_group,
                vehicle_system_instance,
                vehicle_system,
                function,
                function_instance,
                ecu_instance,
                manufacturer_code,
                identity_number,
            ),
    {
        let name: u64 = (if arbitrary_address_capable {
            0x8000_0000_0000_0000u64
        } else {
            0u64
        }) | ((industry_group as u64) << 60) | ((vehicle_system_instance as u64) << 56) | ((
        vehicle_system as u64) << 49) | ((function as u64) << 40) | ((function_instance as u64)
            << 35) | ((ecu_instance as u64) << 32) | ((manufacturer_code as u64) << 21) | (
        identity_number as u64);
        Name { name }
    }

    /// Whether the device can claim an arbitrary address.
    pub fn arbitrary_address_capable(&self) -> (r: bool)
        ensures
            r == spec_arbitrary_address_capable(self@),
    {
        self.name & 0x8000_0000_0000_0000 > 0
    }

    /// Industry group, 3 bits.
    pub fn industry_group(&self) -> (r: u8)
        ensures
            r == spec_industry_group(self@),
    {
        ((self.name >> 60) & 0x07) as u8
    }

    /// Vehicle system instance, 4 bits.
    pub fn vehicle_system_instance(&self) -> (r: u8)
        ensures
            r == spec_vehicle_system_instance(self@),
    {
        ((self.name >> 56) & 0x0f) as u8
    }

    /// Vehicle system, 7 bits.
    pub fn vehicle_system(&self) -> (r: u8)
        ensures
            r == spec_vehicle_system(self@),
    {
        ((self.name >> 49) & 0x7f) as u8
    }

    /// Function, 8 bits.
    pub fn function(&self) -> (r: u8)
        ensures
            r == spec_function(self@),
    {
        ((self.name >> 40) & 0xff) as u8
    }

    /// Function instance, 5 bits.
    pub fn function_instance(&self) -> (r: u8)
        ensures
            r == spec_function_instance(self@),
    {
        ((self.name >> 35) & 0x1f) as u8
    }

    /// ECU instance, 3 bits.
    pub fn ecu_instance(&self) -> (r: u8)
        ensures
            r == spec_ecu_instance(self@),
    {
        ((self.name >> 32) & 0x07) as u8
    }

    /// Manufacturer code, 11 bits.
    pub fn manufacturer_code(&self) -> (r: u16)
        ensures
            r == spec_manufacturer_code(self@),
    {
        ((self.name >> 21) & 0x07ff) as u16
    }

    /// Identity number, 21 bits.
    pub fn identity_number(&self) -> (r: u32)
        ensures
            r == spec_identity_number(self@),
    {
        (self.name & 0x1f_ffff) as u32
    }

    /// The raw 64-bit NAME.
    pub fn value(&self) -> (r: u64)
        ensures
            r == self@,
    {
        self.name
    }
}

} // verus!
