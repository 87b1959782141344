use exit_relay::dns_inspector::{
    DnsInspectionError, NameserverEntry, ResolvConfAccess, ResolvConfDnsModifier,
};
use exit_relay::net::IpAddress;
// Reads a dotted quad, or eight groups of hexadecimal digits between colons.
fn to_ip_address(text: &str) -> Option<IpAddress> {
    let quad: Vec<&str> = text.split('.').collect();
    if quad.len() == 4 {
        let mut octets = [0u8; 4];
        for (i, part) in quad.iter().enumerate() {
            octets[i] = part.parse::<u8>().ok()?;
        }
        return Some(IpAddress::V4(octets[0], octets[1], octets[2], octets[3]));
    }
    let groups: Vec<&str> = text.split(':').collect();
    if groups.len() == 8 {
        let mut g = [0u16; 8];
        for (i, part) in groups.iter().enumerate() {
            g[i] = u16::from_str_radix(part, 16).ok()?;
        }
        return Some(IpAddress::V6(
            g[0], g[1], g[2], g[3], g[4], g[5], g[6], g[7],
        ));
    }
    None
}


fn inspect(
    subject: &ResolvConfDnsModifier,
    access: ResolvConfAccess,
) -> Result<Vec<IpAddress>, DnsInspectionError> {
    let contents = subject.open_resolv_conf(access, false)?;
    let entries = subject
        .nameserver_tokens(&contents)
        .into_iter()
        .map(|token| {
            let address = match &token {
                Ok(word) => to_ip_address(word),
                Err(_) => None,
            };
            NameserverEntry { token, address }
        })
        .collect();
    subject.inspect_contents(entries)
}

#[test]
fn nameserver_line_to_ip_complains_when_given_badly_formatted_nameserver_line() {
    let nameserver_line = "booga-booga".to_string();
    let subject = ResolvConfDnsModifier::new();

    let result = subject.nameserver_line_to_ip_str(nameserver_line);

    assert_eq!(
        result,
        Err(DnsInspectionError::BadEntryFormat(
            "booga-booga".to_string()
        ))
    )
}

#[test]
fn nameserver_line_to_ip_handles_line_with_leading_whitespace_and_comment() {
    let nameserver_line = "  \t  \tnameserver  \t  \t booga-booga  \t\t  # comment #".to_string();
    let subject = ResolvConfDnsModifier::new();

    let result = subject.nameserver_line_to_ip_str(nameserver_line);

    assert_eq!(result, Ok("booga-booga".to_string()));
}

#[test]
fn nameserver_line_to_ip_handles_line_with_minimum_whitespace_and_no_comment() {
    let nameserver_line = "nameserver booga-booga".to_string();
    let subject = ResolvConfDnsModifier::new();

    let result = subject.nameserver_line_to_ip_str(nameserver_line);

    assert_eq!(result, Ok("booga-booga".to_string()));
}

#[test]
fn active_nameservers_are_properly_detected_in_trimmed_file() {
    let contents =
        "nameserver beginning\n#nameserver commented\n# nameserver commented2\n nameserver preceded_by_space\nnameserver followed_by_space \nnameserver with more than two words\n ## nameserver double_comment\nnameserver ending";
    let subject = ResolvConfDnsModifier::new();

    let result = subject.active_nameservers(contents);

    assert_eq!(
        result,
        vec!(
            (String::from("nameserver beginning"), 0),
            (String::from("nameserver preceded_by_space"), 68),
            (String::from("nameserver followed_by_space"), 97),
            (String::from("nameserver with"), 127),
            (String::from("nameserver ending"), 193)
        )
    );
}

#[test]
fn active_nameservers_are_properly_detected_in_untrimmed_file() {
    let contents = "#leading comment\nnameserver beginning\nnameserver ending\n#trailing comment";
    let subject = ResolvConfDnsModifier::new();

    let result = subject.active_nameservers(contents);

    assert_eq!(
        result,
        vec!(
            (String::from("nameserver beginning"), 17),
            (String::from("nameserver ending"), 38)
        )
    );
}

#[test]
fn instance_knows_its_type_name() {
    let subject = ResolvConfDnsModifier::new();

    let result = subject.type_label();

    assert_eq!(result, "ResolvConfDnsModifier");
}

#[test]
fn inspect_complains_if_resolv_conf_does_not_exist() {
    let subject = ResolvConfDnsModifier::new();

    let result = inspect(&subject, ResolvConfAccess::NotFound);

    assert_eq!(
        result.err().unwrap(),
        DnsInspectionError::InvalidConfigFile(String::from("/etc/resolv.conf was not found"))
    );
}

#[test]
fn inspect_complains_if_resolv_conf_exists_but_is_a_directory() {
    let subject = ResolvConfDnsModifier::new();

    let result = inspect(&subject, ResolvConfAccess::NotUtf8);

    assert_eq!(
        result.err().unwrap(),
        DnsInspectionError::InvalidConfigFile(String::from(
            "/etc/resolv.conf is not a UTF-8 text file"
        ))
    );
}

#[test]
fn inspect_complains_if_resolv_conf_exists_but_is_not_readable() {
    let subject = ResolvConfDnsModifier::new();

    let result = inspect(&subject, ResolvConfAccess::PermissionDenied);

    assert_eq!(
        result.err().unwrap(),
        DnsInspectionError::InvalidConfigFile(String::from("/etc/resolv.conf is not readable"))
    );
}

#[test]
fn inspect_complains_if_resolv_conf_is_not_utf_8() {
    let subject = ResolvConfDnsModifier::new();

    let result = inspect(&subject, ResolvConfAccess::NotUtf8);

    assert_eq!(
        result.err().unwrap(),
        DnsInspectionError::InvalidConfigFile(
            "/etc/resolv.conf is not a UTF-8 text file".to_string()
        )
    );
}

#[test]
fn inspect_complains_if_there_is_no_preexisting_nameserver_directive() {
    let subject = ResolvConfDnsModifier::new();

    let result = inspect(&subject, ResolvConfAccess::Contents(String::new()));

    assert_eq!(result.err().unwrap(), DnsInspectionError::NotConnected);
}

#[test]
fn inspect_complains_if_nameserver_directive_has_bad_ip_address() {
    let subject = ResolvConfDnsModifier::new();

    let result = inspect(
        &subject,
        ResolvConfAccess::Contents("nameserver 300.301.302.303".to_string()),
    );

    assert_eq!(
        result.err().unwrap(),
        DnsInspectionError::BadEntryFormat("300.301.302.303".to_string())
    );
}

#[test]
fn inspect_works_if_everything_is_copacetic() {
    let subject = ResolvConfDnsModifier::new();

    let result = inspect(
        &subject,
        ResolvConfAccess::Contents(
            "#comment\n## nameserver 1.1.1.1\nnameserver 8.8.8.8\nnameserver 2603:6011:b504:bf01:2ad:24ff:fe57:fd78\n#nameserver 127.0.0.1\n"
                .to_string(),
        ),
    )
    .unwrap();

    assert_eq!(
        result,
        vec![
            to_ip_address("8.8.8.8").unwrap(),
            to_ip_address("2603:6011:b504:bf01:2ad:24ff:fe57:fd78").unwrap(),
        ]
    );
    assert_eq!(result[0], IpAddress::V4(8, 8, 8, 8));
    assert_eq!(
        result[1],
        IpAddress::V6(0x2603, 0x6011, 0xb504, 0xbf01, 0x2ad, 0x24ff, 0xfe57, 0xfd78)
    );
}

#[test]
fn a_file_that_was_to_be_written_says_so() {
    let subject = ResolvConfDnsModifier::new();
    let complaint = |access| match subject.open_resolv_conf(access, true) {
        Err(DnsInspectionError::InvalidConfigFile(msg)) => msg,
        other => panic!("no complaint: {:?}", other),
    };

    assert_eq!(
        complaint(ResolvConfAccess::NotFound),
        "/etc/resolv.conf was not found and could not be modified"
    );
    assert_eq!(
        complaint(ResolvConfAccess::PermissionDenied),
        "/etc/resolv.conf is not readable and writable and could not be modified"
    );
    assert_eq!(
        complaint(ResolvConfAccess::IsADirectory),
        "/etc/resolv.conf is a directory and could not be modified"
    );
    assert_eq!(
        complaint(ResolvConfAccess::NotUtf8),
        "/etc/resolv.conf is not a UTF-8 text file and could not be modified"
    );
    assert_eq!(
        complaint(ResolvConfAccess::OtherFailure {
            path: "\"/etc/resolv.conf\"".to_string(),
            error: "too many open files".to_string(),
        }),
        "Unexpected error opening \"/etc/resolv.conf\": too many open files"
    );
    assert_eq!(
        subject.open_resolv_conf(ResolvConfAccess::Contents("text".to_string()), true),
        Ok("text".to_string())
    );
}

#[test]
fn a_directory_in_place_of_the_file_is_complained_about() {
    let subject = ResolvConfDnsModifier::new();

    let result = subject.open_resolv_conf(ResolvConfAccess::IsADirectory, false);

    assert_eq!(
        result,
        Err(DnsInspectionError::InvalidConfigFile(
            "/etc/resolv.conf is a directory".to_string()
        ))
    );
}

#[test]
fn process_msg_marks_only_files_to_be_written() {
    assert_eq!(ResolvConfDnsModifier::process_msg("booga", false), "booga");
    assert_eq!(
        ResolvConfDnsModifier::process_msg("booga", true),
        "booga and could not be modified"
    );
}

#[test]
fn the_modifier_looks_under_the_root_directory() {
    assert_eq!(ResolvConfDnsModifier::new().root, "/");
    assert_eq!(ResolvConfDnsModifier::default().root, "/");
}

#[test]
fn one_good_line_outweighs_the_bad_ones() {
    let subject = ResolvConfDnsModifier::new();

    let result = inspect(
        &subject,
        ResolvConfAccess::Contents(
            "nameserver 300.301.302.303\nnameserver 1.2.3.4\nnameserver booga\nnameserver 5.6.7.8"
                .to_string(),
        ),
    );

    assert_eq!(
        result,
        Ok(vec![IpAddress::V4(1, 2, 3, 4), IpAddress::V4(5, 6, 7, 8)])
    );
}

#[test]
fn with_no_good_line_the_first_bad_one_is_complained_about() {
    let subject = ResolvConfDnsModifier::new();

    let result = inspect(
        &subject,
        ResolvConfAccess::Contents("nameserver booga\nnameserver 300.301.302.303".to_string()),
    );

    assert_eq!(
        result,
        Err(DnsInspectionError::BadEntryFormat("booga".to_string()))
    );
}

#[test]
fn a_line_that_came_to_nothing_is_complained_about_as_it_is() {
    let subject = ResolvConfDnsModifier::new();
    let entries = vec![
        NameserverEntry {
            token: Err(DnsInspectionError::BadEntryFormat("whole line".to_string())),
            address: None,
        },
        NameserverEntry {
            token: Ok("booga".to_string()),
            address: None,
        },
    ];

    assert_eq!(
        subject.inspect_contents(entries),
        Err(DnsInspectionError::BadEntryFormat("whole line".to_string()))
    );
    assert_eq!(
        subject.inspect_contents(vec![]),
        Err(DnsInspectionError::NotConnected)
    );
}

#[test]
fn tokens_are_the_words_after_nameserver() {
    let subject = ResolvConfDnsModifier::new();

    let tokens = subject.nameserver_tokens(
        "# resolv.conf\nnameserver 8.8.8.8 # the first\n\tnameserver\tfe80::1\n#nameserver 1.1.1.1\nsearch example.com\n",
    );

    assert_eq!(
        tokens,
        vec![Ok("8.8.8.8".to_string()), Ok("fe80::1".to_string())]
    );
}

#[test]
fn check_disconnected_wants_a_server() {
    let subject = ResolvConfDnsModifier::new();

    assert_eq!(
        subject.check_disconnected(&vec![]),
        Err(DnsInspectionError::NotConnected)
    );
    assert_eq!(
        subject.check_disconnected(&vec![IpAddress::V4(1, 1, 1, 1)]),
        Ok(())
    );
}

#[test]
fn captures_that_are_absent_are_left_out() {
    let found = vec![
        Some(("one".to_string(), 1)),
        None,
        Some(("two".to_string(), 2)),
        None,
    ];

    assert_eq!(
        ResolvConfDnsModifier::present_captures(&found),
        vec![("one".to_string(), 1), ("two".to_string(), 2)]
    );
    assert_eq!(
        ResolvConfDnsModifier::ip_str_from_capture("line".to_string(), None),
        Err(DnsInspectionError::BadEntryFormat("line".to_string()))
    );
    assert_eq!(
        ResolvConfDnsModifier::ip_str_from_capture("line".to_string(), Some("word".to_string())),
        Ok("word".to_string())
    );
}
