use vstd::prelude::*;

verus! {

/// Product information values of a device: plain value holders.
pub struct Product<'a> {
    n2k: u8,
    code: u8,
    model: &'a str,
    software: &'a str,
    version: &'a str,
    serial: &'a str,
    certification: u8,
    load: u8,
}

impl<'a> Product<'a> {
    /// The supported network version.
    pub closed spec fn spec_n2k(&self) -> u8 {
        self.n2k
    }

    /// The product code.
    pub closed spec fn spec_code(&self) -> u8 {
        self.code
    }

    /// The model identifier text.
    pub closed spec fn spec_model(&self) -> Seq<char> {
        self.model@
    }

    /// The software version text.
    pub closed spec fn spec_software(&self) -> Seq<char> {
        self.software@
    }

    /// The model version text.
    pub closed spec fn spec_version(&self) -> Seq<char> {
        self.version@
    }

    /// The serial code text.
    pub closed spec fn spec_serial(&self) -> Seq<char> {
        self.serial@
    }

    /// The certification level.
    pub closed spec fn spec_certification(&self) -> u8 {
        self.certification
    }

    /// The load equivalency value.
    pub closed spec fn spec_load(&self) -> u8 {
        self.load
    }

    /// Gathers the product information fields.
    pub fn new(
        n2k: u8,
        code: u8,
        model: &'a str,
        software: &'a str,
        version: &'a str,
        serial: &'a str,
        certification: u8,
        load: u8,
    ) -> (r: Product<'a>)
        ensures
            r.spec_n2k() == n2k,
            r.spec_code() == code,
            r.spec_model() == model@,
            r.spec_software() == software@,
            r.spec_version() == version@,
            r.spec_serial() == serial@,
            r.spec_certification() == certification,
            r.spec_load() == load,
    {
        Product { n2k, code, model, software, version, serial, certification, load }
    }

    /// The supported network version.
    pub fn n2k(&self) -> (r: u8)
        ensures
            r == self.spec_n2k(),
    {
        self.n2k
    }

    /// The product code.
    pub fn code(&self) -> (r: u8)
        ensures
            r == self.spec_code(),
    {
        self.code
    }

    /// The model identifier text.
    pub fn model(&self) -> (r: &'a str)
        ensures
            r@ == self.spec_model(),
    {
        self.model
    }

    /// The software version text.
    pub fn software(&self) -> (r: &'a str)
        ensures
            r@ == self.spec_software(),
    {
        self.software
    }

    /// The model version text.
    pub fn version(&self) -> (r: &'a str)
        ensures
            r@ == self.spec_version(),
    {
        self.version
    }

    /// The serial code text.
    pub fn serial(&self) -> (r: &'a str)
        ensures
            r@ == self.spec_serial(),
    {
        self.serial
    }

    /// The certification level.
    pub fn certification(&self) -> (r: u8)
        ensures
            r == self.spec_certification(),
    {
        self.certification
    }

    /// The load equivalency value.
    pub fn load(&self) -> (r: u8)
        ensures
            r == self.spec_load(),
    {
        self.load
    }
}

} // verus!
