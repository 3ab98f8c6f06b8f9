use rowstore::{do_meta_command, is_meta_command, meta_command_of_words, MetaCommand};

fn words(line: &str) -> Vec<String> {
    line.split(' ').filter(|word| !word.is_empty()).map(String::from).collect()
}

#[test]
fn lines_that_start_with_a_dot_are_meta_commands() {
    assert!(is_meta_command(".exit\n"));
    assert!(is_meta_command(".open users"));
    assert!(is_meta_command("."));
    assert!(is_meta_command(". insert"));
    assert!(!is_meta_command(""));
    assert!(!is_meta_command("\n"));
    assert!(!is_meta_command(" .exit"));
    assert!(!is_meta_command("insert 1 a b"));
    assert!(!is_meta_command("é.exit"));
}

#[test]
fn exit_is_a_meta_command() {
    assert!(matches!(do_meta_command(&String::from(".exit\n")), Ok(MetaCommand::Exit)));
    assert!(matches!(do_meta_command(&String::from(".exit now")), Ok(MetaCommand::Exit)));
}

#[test]
fn open_names_the_file_in_the_data_directory() {
    match do_meta_command(&String::from(".open users\n")).expect("test ok") {
        MetaCommand::Open { path, prompt } => {
            assert_eq!(path, "./data/users.db");
            assert_eq!(prompt, "db users");
        }
        other => panic!("{:?}", other),
    }
    match do_meta_command(&String::from(".open\ta b")).expect("test ok") {
        MetaCommand::Open { path, prompt } => {
            assert_eq!(path, "./data/a.db");
            assert_eq!(prompt, "db a");
        }
        other => panic!("{:?}", other),
    }
}

#[test]
fn other_lines_are_no_meta_command() {
    assert!(do_meta_command(&String::from(".open")).is_err());
    assert!(do_meta_command(&String::from(".open \n")).is_err());
    assert!(do_meta_command(&String::from(".close")).is_err());
    assert!(do_meta_command(&String::from(".exits")).is_err());
    assert!(do_meta_command(&String::from(". exit")).is_err());
    assert!(do_meta_command(&String::from("")).is_err());
}

#[test]
fn meta_command_goes_by_the_first_word() {
    assert!(matches!(meta_command_of_words(&words(".exit")), Ok(MetaCommand::Exit)));
    match meta_command_of_words(&words(".open t")).expect("test ok") {
        MetaCommand::Open { path, prompt } => {
            assert_eq!(path, "./data/t.db");
            assert_eq!(prompt, "db t");
        }
        other => panic!("{:?}", other),
    }
    assert!(meta_command_of_words(&words(".open")).is_err());
    assert!(meta_command_of_words(&words("exit")).is_err());
    assert!(meta_command_of_words(&Vec::new()).is_err());
}
