use puppetfile_audit::report::forge_module_console_hyperlink;

#[test]
fn hyperlink_wraps_the_title_in_escape_sequences() {
    assert_eq!(
        forge_module_console_hyperlink("puppetlabs/stdlib", "puppetlabs-stdlib"),
        "\x1B]8;;https://forge.puppet.com/modules/puppetlabs/stdlib\x1B\\puppetlabs-stdlib\x1B]8;;\x1B\\"
    );
    assert_eq!(
        forge_module_console_hyperlink("", ""),
        "\x1B]8;;https://forge.puppet.com/modules/\x1B\\\x1B]8;;\x1B\\"
    );
}
