use cio::utils::{
    access_token_is_valid, concat_contents, get_rfds_from_repo, gsuite_scopes,
    read_config_from_files, rfds_from_rows, with_template_warning, RfdError, TEMPLATE_WARNING,
};

fn row(fields: &[&str]) -> Vec<String> {
    fields.iter().map(|f| f.to_string()).collect()
}

#[test]
fn generated_text_begins_with_the_warning() {
    assert_eq!(
        TEMPLATE_WARNING,
        "# THIS FILE HAS BEEN GENERATED BY THE CONFIGS REPO\n# AND SHOULD NEVER BE EDITED BY HAND!!\n# Instead change the link in configs/links.toml\n\n"
    );
    assert_eq!(with_template_warning("a = 1\n"), format!("{}a = 1\n", TEMPLATE_WARNING));
    assert_eq!(with_template_warning(""), TEMPLATE_WARNING);
}

#[test]
fn contents_are_joined_in_order() {
    assert_eq!(concat_contents(&vec![]), "");
    assert_eq!(concat_contents(&vec!["a".to_string()]), "a");
    let bodies = vec!["[x]\n".to_string(), "".to_string(), "k = 1\n".to_string(), "[y]\n".to_string()];
    assert_eq!(concat_contents(&bodies), "[x]\nk = 1\n[y]\n");
}

#[test]
fn config_is_decoded_from_joined_files() {
    let bodies = vec![
        "title = \"configs\"\n\n[users.ada]\n".to_string(),
        "first_name = \"Ada\"\ngroups = [\"eng\", \"all\"]\n".to_string(),
        "\n[links.rfd]\nshort = 7\n".to_string(),
    ];
    let config = read_config_from_files(&bodies).expect("the files decode");
    assert_eq!(config.get("title").and_then(|v| v.as_str()), Some("configs"));
    let ada = config.get("users").and_then(|u| u.get("ada")).expect("ada is there");
    assert_eq!(ada.get("first_name").and_then(|v| v.as_str()), Some("Ada"));
    assert_eq!(ada.get("groups").and_then(|v| v.as_array()).map(|a| a.len()), Some(2));
    let short = config.get("links").and_then(|l| l.get("rfd")).and_then(|r| r.get("short"));
    assert_eq!(short.and_then(|v| v.as_integer()), Some(7));
    let none = read_config_from_files(&vec![]).expect("no file is an empty document");
    assert_eq!(none.as_table().map(|t| t.len()), Some(0));
}

#[test]
fn undecodable_config_is_an_error() {
    let broken = read_config_from_files(&vec!["title = ".to_string()]);
    assert!(!broken.expect_err("not a document").message.is_empty());
    let halves = vec!["[users]\nada = 1\n".to_string(), "[users]\nbob = 2\n".to_string()];
    assert!(read_config_from_files(&halves).is_err());
    assert!(read_config_from_files(&halves[..1].to_vec()).is_ok());
}

#[test]
fn scopes_are_the_six() {
    assert_eq!(
        gsuite_scopes(),
        vec![
            "https://www.googleapis.com/auth/admin.directory.group",
            "https://www.googleapis.com/auth/admin.directory.resource.calendar",
            "https://www.googleapis.com/auth/admin.directory.user",
            "https://www.googleapis.com/auth/apps.groups.settings",
            "https://www.googleapis.com/auth/spreadsheets",
            "https://www.googleapis.com/auth/drive",
        ]
    );
}

#[test]
fn empty_token_is_not_valid() {
    assert!(!access_token_is_valid(""));
    assert!(access_token_is_valid("t"));
    assert!(access_token_is_valid("ya29.token"));
}

#[test]
fn rfds_are_read_from_csv() {
    let content = b"num,title,link,state,discussion\n\
        1,The Oxide RFD Process,https://rfd.example/1,published,https://d.example/1\n\
        0002,\"Mission, Principles\",https://rfd.example/2,discussion,\n\
        10,Third,https://rfd.example/10,ideation,https://d.example/10\n";
    let rfds = get_rfds_from_repo(content).expect("the content is a table");
    assert_eq!(rfds.len(), 3);
    assert_eq!(rfds.keys().copied().collect::<Vec<i32>>(), vec![1, 2, 10]);
    assert_eq!(rfds[&1].number, "1");
    assert_eq!(rfds[&1].title, "The Oxide RFD Process");
    assert_eq!(rfds[&1].link, "https://rfd.example/1");
    assert_eq!(rfds[&1].state, "published");
    assert_eq!(rfds[&1].discussion, "https://d.example/1");
    assert_eq!(rfds[&2].number, "0002");
    assert_eq!(rfds[&2].title, "Mission, Principles");
    assert_eq!(rfds[&2].discussion, "");
    assert_eq!(rfds[&10].state, "ideation");
}

#[test]
fn header_alone_is_an_empty_table() {
    let rfds = get_rfds_from_repo(b"num,title,link,state,discussion\n").expect("a table");
    assert!(rfds.is_empty());
    assert!(get_rfds_from_repo(b"").expect("a table").is_empty());
}

#[test]
fn later_row_replaces_earlier() {
    let content = b"num,title,link,state,discussion\n3,old,l,s,d\n4,four,l,s,d\n03,new,l2,s2,d2\n";
    let rfds = get_rfds_from_repo(content).expect("a table");
    assert_eq!(rfds.len(), 2);
    assert_eq!(rfds[&3].title, "new");
    assert_eq!(rfds[&3].number, "03");
    assert_eq!(rfds[&4].title, "four");
}

#[test]
fn bad_content_is_refused() {
    assert_eq!(get_rfds_from_repo(&[0x6e, 0xff, 0x0a]).err(), Some(RfdError::NotUtf8));
    let ragged = b"num,title,link,state,discussion\n1,a,b,c,d\n2,a,b\n";
    assert_eq!(get_rfds_from_repo(ragged).err(), Some(RfdError::Csv));
    let word = b"num,title,link,state,discussion\n1,a,b,c,d\nsix,a,b,c,d\n";
    assert_eq!(get_rfds_from_repo(word).err(), Some(RfdError::BadNumber { row: 1 }));
    let narrow = b"num,title\n1,a\n2,b\n";
    assert_eq!(get_rfds_from_repo(narrow).err(), Some(RfdError::MissingField { row: 0 }));
    let narrow_word = b"num,title\nx,a\n";
    assert_eq!(get_rfds_from_repo(narrow_word).err(), Some(RfdError::BadNumber { row: 0 }));
}

#[test]
fn rows_give_the_table_or_the_first_fault() {
    let good = vec![row(&["5", "t", "l", "s", "d", "extra"]), row(&["-1", "u", "m", "r", "e"])];
    let rfds = rfds_from_rows(&good).expect("both rows are sound");
    assert_eq!(rfds.keys().copied().collect::<Vec<i32>>(), vec![-1, 5]);
    assert_eq!(rfds[&5].discussion, "d");
    assert_eq!(rfds[&-1].title, "u");
    assert!(rfds_from_rows(&vec![]).expect("no rows").is_empty());
    let empty_row = vec![row(&["5", "t", "l", "s", "d"]), row(&[])];
    assert_eq!(rfds_from_rows(&empty_row).err(), Some(RfdError::MissingField { row: 1 }));
    let two_faults = vec![row(&["1", "t"]), row(&["x", "t", "l", "s", "d"])];
    assert_eq!(rfds_from_rows(&two_faults).err(), Some(RfdError::MissingField { row: 0 }));
    let big = vec![row(&["2147483648", "t", "l", "s", "d"])];
    assert_eq!(rfds_from_rows(&big).err(), Some(RfdError::BadNumber { row: 0 }));
}

#[test]
fn split_files_decode_as_the_whole() {
    let whole = "title = \"configs\"\n\n[users.ada]\nfirst_name = \"Ada\"\n\n[links.rfd]\nshort = 7\n";
    let expected = read_config_from_files(&vec![whole.to_string()]).expect("the whole decodes");
    assert_eq!(expected, whole.parse::<toml::Value>().expect("the whole decodes"));
    for at in 0..=whole.len() {
        let parts = vec![whole[..at].to_string(), whole[at..].to_string()];
        assert_eq!(read_config_from_files(&parts).expect("the parts decode"), expected);
    }
    let swapped = vec!["[users.ada]\nfirst_name = \"Ada\"\n".to_string(), "title = \"t\"\n".to_string()];
    let in_order = vec![swapped[1].clone(), swapped[0].clone()];
    let a = read_config_from_files(&swapped).expect("decodes");
    let b = read_config_from_files(&in_order).expect("decodes");
    assert_ne!(a, b);
    assert!(a.get("title").is_none());
    assert_eq!(b.get("title").and_then(|v| v.as_str()), Some("t"));
}
