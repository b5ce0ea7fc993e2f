use ai_terminal::{classify_command, CommandRisk};

#[test]
fn dangerous_beats_caution_on_rm_rf_root() {
    // "rm -rf /" starts with the caution prefix "rm " too; the denylist wins.
    assert_eq!(classify_command("rm -rf /"), CommandRisk::Dangerous);
}

#[test]
fn dangerous_by_substring_anywhere() {
    assert_eq!(classify_command("sudo rm -rf /"), CommandRisk::Dangerous);
    assert_eq!(classify_command("echo mkfs"), CommandRisk::Dangerous);
    assert_eq!(classify_command("dd if=/dev/zero of=/dev/sda"), CommandRisk::Dangerous);
    assert_eq!(classify_command("shutdown -h now"), CommandRisk::Dangerous);
    assert_eq!(classify_command("reboot"), CommandRisk::Dangerous);
    assert_eq!(classify_command(":(){:|:&};:"), CommandRisk::Dangerous);
    assert_eq!(classify_command("rm -rf ~"), CommandRisk::Dangerous);
    assert_eq!(classify_command("rm -rf *"), CommandRisk::Dangerous);
}

#[test]
fn classification_is_case_insensitive_and_trims() {
    assert_eq!(classify_command("  RM -RF /  "), CommandRisk::Dangerous);
    assert_eq!(classify_command("  Mv a b"), CommandRisk::Caution);
}

#[test]
fn caution_prefixes() {
    assert_eq!(classify_command("rm file.txt"), CommandRisk::Caution);
    assert_eq!(classify_command("mv a b"), CommandRisk::Caution);
    assert_eq!(classify_command("cp a b"), CommandRisk::Caution);
    assert_eq!(classify_command("chmod +x run.sh"), CommandRisk::Caution);
    assert_eq!(classify_command("chown me file"), CommandRisk::Caution);
    assert_eq!(classify_command("kill 1234"), CommandRisk::Caution);
    assert_eq!(classify_command("pkill sleep"), CommandRisk::Caution);
}

#[test]
fn caution_needs_the_prefix_not_a_substring() {
    // "rm " occurs inside, but not as a prefix, and no denylist entry matches.
    assert_eq!(classify_command("echo rm file"), CommandRisk::Safe);
}

#[test]
fn safe_commands() {
    assert_eq!(classify_command("ls -la"), CommandRisk::Safe);
    assert_eq!(classify_command(""), CommandRisk::Safe);
    assert_eq!(classify_command("rmdir empty"), CommandRisk::Safe);
    assert_eq!(classify_command("git status"), CommandRisk::Safe);
}
