/// Test cases for visual regression testing
/// These tests validate the catalogue of rendering configurations that the
/// image outputs are generated from.
#[derive(Debug)]
struct TestCase {
    name: &'static str,
    width: u32,
    height: u32,
    samples: u32,
    description: &'static str,
}

fn test_cases() -> Vec<TestCase> {
    vec![
        TestCase {
            name: "basic_render_800x600",
            width: 800,
            height: 600,
            samples: 1,
            description: "Basic rendering test at 800x600 resolution",
        },
        TestCase {
            name: "high_res_1920x1080",
            width: 1920,
            height: 1080,
            samples: 1,
            description: "High resolution rendering test",
        },
        TestCase {
            name: "square_512x512",
            width: 512,
            height: 512,
            samples: 1,
            description: "Square aspect ratio rendering test",
        },
        TestCase {
            name: "antialiased_4x",
            width: 800,
            height: 600,
            samples: 4,
            description: "Anti-aliased rendering with 4x MSAA",
        },
        TestCase {
            name: "minimal_400x300",
            width: 400,
            height: 300,
            samples: 1,
            description: "Minimal resolution rendering test",
        },
    ]
}

#[test]
fn test_case_definitions() {
    // Ensure all test cases have valid configurations
    for test_case in test_cases() {
        assert!(!test_case.name.is_empty(), "Test case name cannot be empty");
        assert!(test_case.width > 0, "Width must be positive");
        assert!(test_case.height > 0, "Height must be positive");
        assert!(test_case.samples > 0, "Samples must be positive");
        assert!(
            !test_case.description.is_empty(),
            "Description cannot be empty"
        );

        // Ensure name is suitable for filename
        assert!(
            !test_case.name.contains(' '),
            "Test case name should not contain spaces"
        );
        assert!(
            !test_case.name.contains('/'),
            "Test case name should not contain slashes"
        );
    }
}

#[test]
fn test_case_uniqueness() {
    // Ensure all test case names are unique
    let mut names = std::collections::HashSet::new();
    for test_case in test_cases() {
        assert!(
            names.insert(test_case.name),
            "Duplicate test case name: {}",
            test_case.name
        );
    }
}
