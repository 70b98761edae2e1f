//! Tests of the command-line argument handling.

use numbers_into_words::process_input::and_help;
use numbers_into_words::process_input::example_session;
use numbers_into_words::process_input::help_text;
use numbers_into_words::process_input::InputComponent;
use numbers_into_words::process_input::OutputComponent;
use numbers_into_words::AndBehavior;
use numbers_into_words::Config;

#[test]
fn test_example_session() {
    assert_eq!(
        example_session(&["--help"], "PROGRAM_NAME"),
        "$ PROGRAM_NAME --help\n".to_owned() + &help_text(&"PROGRAM_NAME".to_string())
    );
    assert_eq!(
        example_session(&["--and-help"], "PROGRAM_NAME"),
        "$ PROGRAM_NAME --and-help\n".to_owned() + &and_help()
    );
    assert_eq!(
        example_session(&["234", "15_234", "4x3x5x2xyz"], "blah"),
        "$ blah 234 15_234 4x3x5x2xyz\n234: two-hundred and thirty-four\n".to_owned()
            + "15234: fifteen thousand, two-hundred and thirty-four\n"
            + "4352: four thousand, three-hundred and fifty-two"
    );
}

#[test]
fn test_config_parse() {
    let mut cfg = Config::parse(vec!["blahblah".to_string()]);
    assert!(cfg.output_components.is_err());
    assert!(!cfg.help);
    assert!(!cfg.and_help);
    assert!(!cfg.minimal_output);
    assert_eq!(cfg.prog_name, "blahblah".to_string());

    cfg = Config::parse(
        vec!["blahblah", "--help"]
            .iter()
            .map(|x| x.to_string())
            .collect(),
    );
    assert!(cfg.output_components.is_ok());
    assert_eq!(cfg.output_components.unwrap().len(), 0);
    assert!(cfg.help);
    assert!(!cfg.and_help);
    assert!(!cfg.minimal_output);
    assert_eq!(cfg.prog_name, "blahblah".to_string());

    cfg = Config::parse(
        vec!["blahblah", "--and-help", "234"]
            .iter()
            .map(|x| x.to_string())
            .collect(),
    );
    assert!(cfg.output_components.is_ok());
    assert_eq!(cfg.output_components.unwrap().len(), 1);
    assert!(cfg.and_help);
    assert!(!cfg.help);
    assert!(!cfg.minimal_output);
    assert_eq!(cfg.prog_name, "blahblah".to_string());

    cfg = Config::parse(
        vec!["blahblah", "--minimal", "234", "2265245"]
            .iter()
            .map(|x| x.to_string())
            .collect(),
    );
    assert!(cfg.output_components.is_ok());
    assert_eq!(cfg.output_components.unwrap().len(), 2);
    assert!(!cfg.and_help);
    assert!(!cfg.help);
    assert!(cfg.minimal_output);
    assert_eq!(cfg.prog_name, "blahblah".to_string());

    cfg = Config::parse(
        vec!["blahblah", "--and=none", "234", "2265245"]
            .iter()
            .map(|x| x.to_string())
            .collect(),
    );
    assert!(cfg.output_components.is_ok());
    let oc = cfg.output_components.unwrap();
    assert_eq!(oc.len(), 2);
    assert_eq!(
        oc[0],
        OutputComponent::ToConvert {
            value: 234,
            and_behavior: AndBehavior::Never
        }
    );
    assert_eq!(
        oc[1],
        OutputComponent::ToConvert {
            value: 2265245,
            and_behavior: AndBehavior::Never
        }
    );
    assert!(!cfg.and_help);
    assert!(!cfg.help);
    assert!(!cfg.minimal_output);
    assert_eq!(cfg.prog_name, "blahblah".to_string());

    cfg = Config::parse(
        vec!["blahblah", "--and=last", "234", "2265245"]
            .iter()
            .map(|x| x.to_string())
            .collect(),
    );
    assert!(cfg.output_components.is_ok());
    let oc = cfg.output_components.unwrap();
    assert_eq!(oc.len(), 2);
    assert_eq!(
        oc[0],
        OutputComponent::ToConvert {
            value: 234,
            and_behavior: AndBehavior::LastGroup
        }
    );
    assert_eq!(
        oc[1],
        OutputComponent::ToConvert {
            value: 2265245,
            and_behavior: AndBehavior::LastGroup
        }
    );
    assert!(!cfg.and_help);
    assert!(!cfg.help);
    assert!(!cfg.minimal_output);
    assert_eq!(cfg.prog_name, "blahblah".to_string());

    cfg = Config::parse(
        vec!["blahblah", "--and=below1k", "234", "2265245"]
            .iter()
            .map(|x| x.to_string())
            .collect(),
    );
    assert!(cfg.output_components.is_ok());
    let oc = cfg.output_components.unwrap();
    assert_eq!(oc.len(), 2);
    assert_eq!(
        oc[0],
        OutputComponent::ToConvert {
            value: 234,
            and_behavior: AndBehavior::OnlyUnderThousand
        }
    );
    assert_eq!(
        oc[1],
        OutputComponent::ToConvert {
            value: 2265245,
            and_behavior: AndBehavior::OnlyUnderThousand
        }
    );
    assert!(!cfg.and_help);
    assert!(!cfg.help);
    assert!(!cfg.minimal_output);
    assert_eq!(cfg.prog_name, "blahblah".to_string());

    cfg = Config::parse(
        vec!["blahblah", "--and=all", "234", "2265245"]
            .iter()
            .map(|x| x.to_string())
            .collect(),
    );
    assert!(cfg.output_components.is_ok());
    let oc = cfg.output_components.unwrap();
    assert_eq!(oc.len(), 2);
    assert_eq!(
        oc[0],
        OutputComponent::ToConvert {
            value: 234,
            and_behavior: AndBehavior::All
        }
    );
    assert_eq!(
        oc[1],
        OutputComponent::ToConvert {
            value: 2265245,
            and_behavior: AndBehavior::All
        }
    );
    assert!(!cfg.and_help);
    assert!(!cfg.help);
    assert!(!cfg.minimal_output);
    assert_eq!(cfg.prog_name, "blahblah".to_string());

    cfg = Config::parse(
        vec!["blahblah", "234", "2265245"]
            .iter()
            .map(|x| x.to_string())
            .collect(),
    );
    assert!(cfg.output_components.is_ok());
    let oc = cfg.output_components.unwrap();
    assert_eq!(oc.len(), 2);
    assert_eq!(
        oc[0],
        OutputComponent::ToConvert {
            value: 234,
            and_behavior: AndBehavior::All
        }
    );
    assert_eq!(
        oc[1],
        OutputComponent::ToConvert {
            value: 2265245,
            and_behavior: AndBehavior::All
        }
    );
    assert!(!cfg.and_help);
    assert!(!cfg.help);
    assert!(!cfg.minimal_output);
    assert_eq!(cfg.prog_name, "blahblah".to_string());
}

#[test]
fn test_parse_single_output() {
    assert_eq!(
        InputComponent::parse_single_input("--help"),
        InputComponent::Help
    );

    assert_eq!(
        InputComponent::parse_single_input("--and-help"),
        InputComponent::AndHelp
    );

    assert_eq!(
        InputComponent::parse_single_input("--minimal"),
        InputComponent::MinimalOutput
    );

    assert_eq!(
        InputComponent::parse_single_input("--and=none"),
        InputComponent::AndOption(AndBehavior::Never)
    );

    assert_eq!(
        InputComponent::parse_single_input("--and=last"),
        InputComponent::AndOption(AndBehavior::LastGroup)
    );

    assert_eq!(
        InputComponent::parse_single_input("--and=below1k"),
        InputComponent::AndOption(AndBehavior::OnlyUnderThousand)
    );

    assert_eq!(
        InputComponent::parse_single_input("--and=all"),
        InputComponent::AndOption(AndBehavior::All)
    );

    assert_eq!(
        InputComponent::parse_single_input("--asfskajlas"),
        InputComponent::Error("Invalid option --asfskajlas".to_string())
    );

    assert_eq!(
        InputComponent::parse_single_input("asfskajlas"),
        InputComponent::Error("Invalid input: asfskajlas".to_string())
    );

    assert_eq!(
        InputComponent::parse_single_input("1"),
        InputComponent::ToConvert(1)
    );

    assert_eq!(
        InputComponent::parse_single_input("523_972"),
        InputComponent::ToConvert(523_972)
    );

    assert_eq!(
        InputComponent::parse_single_input("1_000_000_000_000_000_000_000"),
        InputComponent::Error("Too big: 1_000_000_000_000_000_000_000".to_string())
    );
}

