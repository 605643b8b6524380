use n2k::Name;

#[test]
fn name_new() {
    struct TestCase {
        arbitrary_address_capable: bool,
        industry_group: u8,
        vehicle_system_instance: u8,
        vehicle_system: u8,
        function: u8,
        function_instance: u8,
        ecu_instance: u8,
        manufacturer_code: u16,
        identity_number: u32,
    }
    let test_cases = [
        TestCase {
            arbitrary_address_capable: true, // 1 bit
            industry_group: 0x02,            // 3 bits
            vehicle_system_instance: 0x05,   // 4 bits
            vehicle_system: 0x55,            // 7 bits
            function: 0x55,                  // 8 bits
            function_instance: 0x15,         // 5 bits
            ecu_instance: 0x05,              // 3 bits
            manufacturer_code: 0x0555,       // 11 bits
            identity_number: 0x00155555,     // 21 bits
        },
        TestCase {
            arbitrary_address_capable: true, // 1 bit
            industry_group: 0x02,            // 3 bits
            vehicle_system_instance: 0x0a,   // 4 bits
            vehicle_system: 0x55,            // 7 bits
            function: 0xaa,                  // 8 bits
            function_instance: 0x15,         // 5 bits
            ecu_instance: 0x02,              // 3 bits
            manufacturer_code: 0x0555,       // 11 bits
            identity_number: 0x000aaaaa,     // 21 bits
        },
        TestCase {
            arbitrary_address_capable: false, // 1 bit
            industry_group: 0x05,             // 3 bits
            vehicle_system_instance: 0x05,    // 4 bits
            vehicle_system: 0x2a,             // 7 bits
            function: 0x55,                   // 8 bits
            function_instance: 0x0a,          // 5 bits
            ecu_instance: 0x05,               // 3 bits
            manufacturer_code: 0x02aa,        // 11 bits
            identity_number: 0x00155555,      // 21 bits
        },
    ];
    for i in &test_cases {
        let name = Name::new(
            i.arbitrary_address_capable,
            i.industry_group,
            i.vehicle_system_instance,
            i.vehicle_system,
            i.function,
            i.function_instance,
            i.ecu_instance,
            i.manufacturer_code,
            i.identity_number,
        );

        assert_eq!(i.arbitrary_address_capable, name.arbitrary_address_capable());
        assert_eq!(i.industry_group, name.industry_group());
        assert_eq!(i.vehicle_system_instance, name.vehicle_system_instance());
        assert_eq!(i.vehicle_system, name.vehicle_system());
        assert_eq!(i.function, name.function());
        assert_eq!(i.function_instance, name.function_instance());
        assert_eq!(i.ecu_instance, name.ecu_instance());
        assert_eq!(i.manufacturer_code, name.manufacturer_code());
        assert_eq!(i.identity_number, name.identity_number());
    }
}
