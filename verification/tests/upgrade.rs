use dvm::error::{ExtractionFailure, ReplaceStep, UpgradeError, VerificationFailure};
use dvm::fetch::{address, compose_url_to_exec, download_package};
use dvm::integrity::check_exe;
use dvm::platform::{
    extract_strategy_for, replace_exe, ExtractStrategy, Platform, ReplaceStrategy,
    ASIDE_EXTENSION,
};
use dvm::release::{find_version, first_match_of, get_latest_version, version_token};
use dvm::text::{chars_of, contains_text, extension, str_equal, trimmed_equals, Blanks};
use dvm::unpack::{
    locate, plan_unpack, unpack, unpacked, Argument, Location, ARCHIVE_FILE, EXPAND_SCRIPT,
};
use dvm::upgrade::{upgrade_command, Action, Event, Outcome, Stage, Status, Step};
use dvm::version::{parse, Version};

fn literal(text: &str) -> Argument {
    Argument::Literal(String::from(text))
}

fn start(dry_run: bool, force: bool, version: Option<&str>, current: &str) -> Step {
    upgrade_command(
        dry_run,
        force,
        version.map(String::from),
        parse(current).unwrap(),
        Platform::Linux,
    )
}

fn reported(version: &str) -> Event {
    Event::VersionReported {
        exit_success: true,
        output: format!("deno {version}\n").into_bytes(),
    }
}

const UNPACKED: Event = Event::Unpacked { exit_success: true, executable_exists: true };

fn archive() -> Event {
    Event::ArchiveRead(vec![0x50, 0x4b, 0x03, 0x04])
}

fn linux_executable(version: &str) -> Location {
    Location { directory: String::from(version), file: String::from("deno") }
}

#[test]
fn test_compose_url_to_exec() {
    let v = parse("0.0.1").unwrap();
    let url = compose_url_to_exec(&v, Platform::Windows).unwrap();
    assert_eq!(url.as_str(), "https://github.com/denoland/deno/releases/download/v0.0.1/deno-x86_64-pc-windows-msvc.zip");
    let url = compose_url_to_exec(&v, Platform::MacOs).unwrap();
    assert_eq!(
        url.as_str(),
        "https://github.com/denoland/deno/releases/download/v0.0.1/deno-x86_64-apple-darwin.zip"
    );
    let url = compose_url_to_exec(&v, Platform::Linux).unwrap();
    assert_eq!(url.as_str(), "https://github.com/denoland/deno/releases/download/v0.0.1/deno-x86_64-unknown-linux-gnu.zip");
}

#[test]
fn address_is_a_url_in_the_form_in_which_it_is_sent() {
    assert_eq!(address("https://example.com/").unwrap(), "https://example.com/");
    assert_eq!(address("https://example.com/a/b.zip?x=1").unwrap(), "https://example.com/a/b.zip?x=1");
    assert_eq!(address("HTTPS://Example.COM"), Err(UpgradeError::InvalidUrl));
    assert_eq!(address("https://example.com"), Err(UpgradeError::InvalidUrl));
    assert_eq!(address("https://example.com/a/../b"), Err(UpgradeError::InvalidUrl));
    assert_eq!(address("https://example.com/a b"), Err(UpgradeError::InvalidUrl));
    assert_eq!(address("no address"), Err(UpgradeError::InvalidUrl));
    assert_eq!(address("https://"), Err(UpgradeError::InvalidUrl));
    assert_eq!(address(""), Err(UpgradeError::InvalidUrl));
}

#[test]
fn address_of_an_archive_is_the_download_text() {
    for text in ["0.0.1", "1.2.3-rc.1", "1.2.3-rc.1+build.5", "18446744073709551615.0.0+7"] {
        let v = parse(text).unwrap();
        assert_eq!(
            compose_url_to_exec(&v, Platform::Linux).unwrap(),
            format!(
                "https://github.com/denoland/deno/releases/download/v{text}/deno-x86_64-unknown-linux-gnu.zip"
            )
        );
    }
    let odd = Version {
        major: 1,
        minor: 0,
        patch: 0,
        pre: vec![dvm::version::Identifier::AlphaNumeric(String::from("a b"))],
        build: vec![],
    };
    assert_eq!(compose_url_to_exec(&odd, Platform::Linux), Err(UpgradeError::InvalidUrl));
}

#[test]
fn download_is_judged_by_status() {
    assert_eq!(download_package(200), Ok(()));
    assert_eq!(download_package(204), Ok(()));
    assert_eq!(download_package(299), Ok(()));
    assert_eq!(download_package(302), Ok(()));
    assert_eq!(download_package(399), Ok(()));
    assert_eq!(download_package(100), Ok(()));
    assert_eq!(download_package(600), Ok(()));
    assert_eq!(download_package(404), Err(UpgradeError::VersionNotFound));
    assert_eq!(download_package(400), Err(UpgradeError::DownloadFailed(400)));
    assert_eq!(download_package(403), Err(UpgradeError::DownloadFailed(403)));
    assert_eq!(download_package(405), Err(UpgradeError::DownloadFailed(405)));
    assert_eq!(download_package(499), Err(UpgradeError::DownloadFailed(499)));
    assert_eq!(download_package(500), Err(UpgradeError::DownloadFailed(500)));
    assert_eq!(download_package(503), Err(UpgradeError::DownloadFailed(503)));
    assert_eq!(download_package(599), Err(UpgradeError::DownloadFailed(599)));
}

#[test]
fn finds_the_first_version_on_the_page() {
    let page = "<a href=\"/denoland/deno/releases/tag/v1.0.3\">v1.0.3 </a> older: v1.0.2 ";
    assert_eq!(find_version(page).unwrap(), "1.0.3");
    assert_eq!(find_version("v12.345.6789 ").unwrap(), "12.345.6789");
    assert_eq!(find_version("xv0.0.1 y").unwrap(), "0.0.1");
}

#[test]
fn first_match_of_a_pattern() {
    assert_eq!(first_match_of("b+", "aabbbabb"), Ok(Some(String::from("bbb"))));
    assert_eq!(first_match_of("b+", "aaa"), Ok(None));
    assert_eq!(first_match_of("a|ab", "xab"), Ok(Some(String::from("a"))));
    assert_eq!(first_match_of("", "xab"), Ok(Some(String::new())));
    assert_eq!(first_match_of("(", "xab"), Err(UpgradeError::InvalidPattern));
    assert_eq!(first_match_of("a{2,1}", "aa"), Err(UpgradeError::InvalidPattern));
}

#[test]
fn other_numbers_are_no_version() {
    for page in ["", "1.2.3 ", "v1.2.3", "v1.2.3\n", "v1.2 ", "v1.2.x ", "v 1.2.3 ", "V1.2.3 ", "tag/v1.0.3\">"] {
        assert_eq!(find_version(page), Err(UpgradeError::NotFound), "{page:?}");
        assert_eq!(get_latest_version(page), Err(UpgradeError::NotFound), "{page:?}");
    }
}

#[test]
fn version_is_the_match_without_its_ends() {
    assert_eq!(version_token(Some(String::from("v1.2.3 "))).unwrap(), "1.2.3");
    assert_eq!(version_token(Some(String::from("v "))).unwrap(), "");
    assert_eq!(version_token(Some(String::from("vé√ "))).unwrap(), "é√");
    assert_eq!(version_token(Some(String::from("éxé"))), Err(UpgradeError::NotFound));
    assert_eq!(version_token(Some(String::from("v1.2.3"))), Err(UpgradeError::NotFound));
    assert_eq!(version_token(Some(String::from("1.2.3 "))), Err(UpgradeError::NotFound));
    assert_eq!(version_token(Some(String::from("v1.2.3\n"))), Err(UpgradeError::NotFound));
    assert_eq!(version_token(Some(String::from("v"))), Err(UpgradeError::NotFound));
    assert_eq!(version_token(Some(String::from(" "))), Err(UpgradeError::NotFound));
    assert_eq!(version_token(Some(String::new())), Err(UpgradeError::NotFound));
    assert_eq!(version_token(None), Err(UpgradeError::NotFound));
}

#[test]
fn latest_version_is_read_from_the_page() {
    let v = get_latest_version("release v1.4.0 is out").unwrap();
    assert_eq!(v, parse("1.4.0").unwrap());
    assert_eq!(get_latest_version("release v01.4.0 is out"), Err(UpgradeError::InvalidVersion));
    assert_eq!(
        get_latest_version("v98765432109876543210.0.0 "),
        Err(UpgradeError::InvalidVersion)
    );
}

#[test]
fn strategy_goes_by_platform_and_extension() {
    for platform in [Platform::Windows, Platform::MacOs, Platform::Linux] {
        assert_eq!(extract_strategy_for(platform, "deno.gz"), Ok(ExtractStrategy::GunzipPipe));
        assert_eq!(extract_strategy_for(platform, "deno.tar.gz"), Ok(ExtractStrategy::GunzipPipe));
        for name in ["deno.tar", "deno", "deno.", ".zip", "deno.ZIP", "deno.zip.bak", ""] {
            assert_eq!(
                extract_strategy_for(platform, name),
                Err(UpgradeError::Extraction(ExtractionFailure::UnsupportedArchive)),
                "{name:?}"
            );
        }
        assert_eq!(extract_strategy_for(platform, platform.archive_name()), Ok(platform.extract_strategy()));
    }
    assert_eq!(extract_strategy_for(Platform::Windows, "deno.zip"), Ok(ExtractStrategy::PowershellExpand));
    assert_eq!(extract_strategy_for(Platform::MacOs, "deno.zip"), Ok(ExtractStrategy::Unzip));
    assert_eq!(extract_strategy_for(Platform::Linux, "a.b.zip"), Ok(ExtractStrategy::Unzip));
}

#[test]
fn platforms_differ_as_described() {
    assert_eq!(Platform::Windows.archive_name(), "deno-x86_64-pc-windows-msvc.zip");
    assert_eq!(Platform::MacOs.archive_name(), "deno-x86_64-apple-darwin.zip");
    assert_eq!(Platform::Linux.archive_name(), "deno-x86_64-unknown-linux-gnu.zip");
    assert_eq!(Platform::Windows.executable_name(), "deno.exe");
    assert_eq!(Platform::MacOs.executable_name(), "deno");
    assert_eq!(Platform::Linux.executable_name(), "deno");
    assert_eq!(Platform::Windows.home_variable(), "USERPROFILE");
    assert_eq!(Platform::MacOs.home_variable(), "HOME");
    assert_eq!(Platform::Linux.home_variable(), "HOME");
    assert_eq!(Platform::Windows.extract_strategy(), ExtractStrategy::PowershellExpand);
    assert_eq!(Platform::MacOs.extract_strategy(), ExtractStrategy::Unzip);
    assert_eq!(Platform::Linux.extract_strategy(), ExtractStrategy::Unzip);
    assert_eq!(Platform::Windows.replace_strategy(), ReplaceStrategy::RenameAside);
    assert_eq!(Platform::MacOs.replace_strategy(), ReplaceStrategy::DeleteFirst);
    assert_eq!(Platform::Linux.replace_strategy(), ReplaceStrategy::DeleteFirst);
}

#[test]
fn unzip_plan() {
    let v = parse("1.2.3").unwrap();
    let plan = unpack(&v, Platform::Linux);
    assert_eq!(plan.strategy, ExtractStrategy::Unzip);
    assert_eq!(plan.directory, "1.2.3");
    assert_eq!(plan.executable, "deno");
    assert_eq!(plan.archive_file.as_deref(), Some("deno.zip"));
    assert_eq!(plan.program, "unzip");
    assert_eq!(plan.arguments, vec![Argument::ArchivePath]);
    assert!(plan.in_directory);
    assert_eq!(unpack(&v, Platform::MacOs), plan);
    assert_eq!(ARCHIVE_FILE, "deno.zip");
}

#[test]
fn powershell_plan() {
    let v = parse("1.2.3-rc.1").unwrap();
    let plan = unpack(&v, Platform::Windows);
    assert_eq!(plan.strategy, ExtractStrategy::PowershellExpand);
    assert_eq!(plan.directory, "1.2.3-rc.1");
    assert_eq!(plan.executable, "deno.exe");
    assert_eq!(plan.archive_file.as_deref(), Some("deno.zip"));
    assert_eq!(plan.program, "powershell.exe");
    assert_eq!(
        plan.arguments,
        vec![
            literal("-NoLogo"),
            literal("-NoProfile"),
            literal("-NonInteractive"),
            literal("-Command"),
            literal(EXPAND_SCRIPT),
            literal("-Path"),
            Argument::QuotedArchivePath,
            literal("-DestinationPath"),
            Argument::QuotedDirectory,
        ]
    );
    assert!(!plan.in_directory);
    assert!(EXPAND_SCRIPT.starts_with("& {\n"));
    assert!(EXPAND_SCRIPT.contains("[System.IO.Compression.ZipFile]::ExtractToDirectory("));
    assert!(EXPAND_SCRIPT.contains("trap { $host.ui.WriteErrorLine($_.Exception); exit 1 }"));
}

#[test]
fn gunzip_plan() {
    let v = parse("0.9.0").unwrap();
    let plan = plan_unpack(ExtractStrategy::GunzipPipe, &v, Platform::Linux);
    assert_eq!(plan.strategy, ExtractStrategy::GunzipPipe);
    assert_eq!(plan.directory, "0.9.0");
    assert_eq!(plan.executable, "deno");
    assert_eq!(plan.archive_file, None);
    assert_eq!(plan.program, "gunzip");
    assert_eq!(plan.arguments, vec![literal("-c")]);
    assert!(!plan.in_directory);
}

#[test]
fn executable_is_in_the_directory_of_its_version() {
    let v = parse("1.2.3-rc.1").unwrap();
    assert_eq!(
        locate(&v, Platform::Windows),
        Location { directory: String::from("1.2.3-rc.1"), file: String::from("deno.exe") }
    );
    assert_eq!(locate(&v, Platform::Linux), linux_executable("1.2.3-rc.1"));
    assert_eq!(locate(&v, Platform::MacOs), linux_executable("1.2.3-rc.1"));
}

#[test]
fn extraction_needs_success_and_an_executable() {
    assert_eq!(unpacked(true, true), Ok(()));
    assert_eq!(
        unpacked(false, true),
        Err(UpgradeError::Extraction(ExtractionFailure::ProcessFailed))
    );
    assert_eq!(
        unpacked(false, false),
        Err(UpgradeError::Extraction(ExtractionFailure::ProcessFailed))
    );
    assert_eq!(
        unpacked(true, false),
        Err(UpgradeError::Extraction(ExtractionFailure::ExecutableMissing))
    );
}

#[test]
fn verification_wants_exactly_the_expected_version() {
    let v = parse("1.2.3").unwrap();
    let mismatch = Err(UpgradeError::Verification(VerificationFailure::Mismatch));
    assert_eq!(check_exe(true, b"deno 1.2.3".to_vec(), &v), Ok(()));
    assert_eq!(check_exe(true, b"deno 1.2.3\n".to_vec(), &v), Ok(()));
    assert_eq!(check_exe(true, b" \t\r\ndeno 1.2.3 \n\n".to_vec(), &v), Ok(()));
    assert_eq!(check_exe(true, "\u{a0}deno 1.2.3\u{2003}".as_bytes().to_vec(), &v), Ok(()));
    assert_eq!(check_exe(true, b"deno 1.2.4\n".to_vec(), &v), mismatch);
    assert_eq!(check_exe(true, b"deno 1.2.3-rc\n".to_vec(), &v), mismatch);
    assert_eq!(check_exe(true, b"deno  1.2.3\n".to_vec(), &v), mismatch);
    assert_eq!(check_exe(true, b"deno 1.2.3\0".to_vec(), &v), mismatch);
    assert_eq!(check_exe(true, b"x deno 1.2.3".to_vec(), &v), mismatch);
    assert_eq!(check_exe(true, b"Deno 1.2.3".to_vec(), &v), mismatch);
    assert_eq!(check_exe(true, b"1.2.3".to_vec(), &v), mismatch);
    assert_eq!(check_exe(true, b"".to_vec(), &v), mismatch);
    assert_eq!(check_exe(true, b"   ".to_vec(), &v), mismatch);
    assert_eq!(
        check_exe(false, b"deno 1.2.3\n".to_vec(), &v),
        Err(UpgradeError::Verification(VerificationFailure::ExitFailure))
    );
    assert_eq!(
        check_exe(true, vec![0x64, 0x65, 0xff], &v),
        Err(UpgradeError::Verification(VerificationFailure::NotUtf8))
    );
    assert_eq!(
        check_exe(false, vec![0xc0, 0x80], &v),
        Err(UpgradeError::Verification(VerificationFailure::NotUtf8))
    );
    let pre = parse("1.0.0-rc.1+b7").unwrap();
    assert_eq!(check_exe(true, b"deno 1.0.0-rc.1+b7\r\n".to_vec(), &pre), Ok(()));
}

#[test]
fn trimming_takes_blanks_from_both_ends_only() {
    for blanks in [Blanks::WhiteSpace, Blanks::Plain] {
        assert!(trimmed_equals(blanks, "  a b  ", "a b"));
        assert!(trimmed_equals(blanks, "a b", "a b"));
        assert!(trimmed_equals(blanks, "", ""));
        assert!(trimmed_equals(blanks, " \n\t\r ", ""));
        assert!(!trimmed_equals(blanks, "a  b", "a b"));
        assert!(!trimmed_equals(blanks, "a b", " a b"));
        assert!(!trimmed_equals(blanks, "a b", "a"));
        assert!(!trimmed_equals(blanks, "_a_", "a"));
    }
    assert!(trimmed_equals(Blanks::WhiteSpace, "\u{a0}a\u{2003}\u{b}", "a"));
    assert!(!trimmed_equals(Blanks::Plain, "\u{a0}a", "a"));
    assert!(!trimmed_equals(Blanks::Plain, "a\u{b}", "a"));
    assert!(trimmed_equals(Blanks::Plain, "\u{a0}a", "\u{a0}a"));
}

#[test]
fn characters_of_a_text() {
    assert_eq!(chars_of(""), Vec::<char>::new());
    assert_eq!(chars_of("a√b"), vec!['a', '√', 'b']);
    assert_eq!(chars_of("deno 1.0"), "deno 1.0".chars().collect::<Vec<char>>());
}

#[test]
fn part_of_a_text() {
    assert!(contains_text("", ""));
    assert!(contains_text("abc", ""));
    assert!(contains_text("abc", "abc"));
    assert!(contains_text("abc", "a"));
    assert!(contains_text("abc", "bc"));
    assert!(contains_text("aab", "ab"));
    assert!(contains_text("x√y", "√y"));
    assert!(!contains_text("", "a"));
    assert!(!contains_text("abc", "abcd"));
    assert!(!contains_text("abc", "ac"));
    assert!(!contains_text("abc", "cb"));
    for (whole, part) in [("release v1.2.3 ", "v1.2.3 "), ("aaa", "aaaa"), ("abab", "bab")] {
        assert_eq!(contains_text(whole, part), whole.contains(part));
    }
}

#[test]
fn texts_are_compared_character_by_character() {
    assert!(str_equal("", ""));
    assert!(str_equal("zip", "zip"));
    assert!(str_equal("é√", "é√"));
    assert!(!str_equal("zip", "zi"));
    assert!(!str_equal("zip", "zap"));
    assert!(!str_equal("", "z"));
}

#[test]
fn extension_is_what_follows_the_last_dot() {
    assert_eq!(extension("deno.zip"), Some(String::from("zip")));
    assert_eq!(extension("deno.tar.gz"), Some(String::from("gz")));
    assert_eq!(extension("deno."), Some(String::new()));
    assert_eq!(extension("a.é"), Some(String::from("é")));
    assert_eq!(extension("deno"), None);
    assert_eq!(extension(".zip"), None);
    assert_eq!(extension(""), None);
    assert_eq!(extension("..zip"), Some(String::from("zip")));
}

#[test]
fn replacement_steps() {
    assert_eq!(
        replace_exe(ReplaceStrategy::RenameAside),
        vec![ReplaceStep::RenameAside, ReplaceStep::CopyNew]
    );
    assert_eq!(
        replace_exe(ReplaceStrategy::DeleteFirst),
        vec![ReplaceStep::RemoveActive, ReplaceStep::CopyNew]
    );
}

#[test]
fn installed_version_ends_without_any_request() {
    for dry_run in [false, true] {
        let step = start(dry_run, false, Some("1.0.0"), "1.0.0");
        assert_eq!(step.action, Action::Finish(Outcome::AlreadyInstalled));
        assert_eq!(step.status, None);
        assert_eq!(step.pipeline.stage, Stage::Finished);
        let step = step.pipeline.step(Event::ArchiveFetched(200));
        assert_eq!(step.action, Action::Abort(UpgradeError::UnexpectedEvent));
        assert_eq!(step.pipeline.stage, Stage::Finished);
    }
}

#[test]
fn invalid_request_ends_the_upgrade() {
    let step = start(false, false, Some("one.two"), "1.0.0");
    assert_eq!(step.action, Action::Abort(UpgradeError::InvalidVersion));
    assert_eq!(step.pipeline.stage, Stage::Failed);
    let step = start(false, true, Some("v1.0.0"), "1.0.0");
    assert_eq!(step.action, Action::Abort(UpgradeError::InvalidVersion));
}

#[test]
fn requested_version_is_fetched_unpacked_verified_and_installed() {
    let step = start(false, false, Some("1.2.0"), "1.0.0");
    assert_eq!(
        step.action,
        Action::FetchArchive {
            url: String::from(
                "https://github.com/denoland/deno/releases/download/v1.2.0/deno-x86_64-unknown-linux-gnu.zip"
            )
        }
    );
    assert_eq!(step.status, Some(Status::FetchStarted));
    assert_eq!(step.pipeline.stage, Stage::Fetching);
    assert_eq!(step.pipeline.target, Some(parse("1.2.0").unwrap()));

    let step = step.pipeline.step(Event::ArchiveFetched(200));
    assert_eq!(step.action, Action::ReadArchive);
    assert_eq!(step.status, None);
    assert_eq!(step.pipeline.stage, Stage::Downloading);

    let step = step.pipeline.step(Event::ArchiveRead(vec![1, 2, 3, 4, 5]));
    assert_eq!(
        step.action,
        Action::Unpack {
            plan: unpack(&parse("1.2.0").unwrap(), Platform::Linux),
            archive: vec![1, 2, 3, 4, 5]
        }
    );
    assert_eq!(step.status, Some(Status::FetchSucceeded));
    assert_eq!(step.pipeline.stage, Stage::Unpacking);

    let step = step.pipeline.step(UNPACKED);
    assert_eq!(step.action, Action::CopyPermissions { new: linux_executable("1.2.0") });
    assert_eq!(step.status, Some(Status::ExtractionSucceeded));

    let step = step.pipeline.step(Event::PermissionsCopied);
    assert_eq!(step.action, Action::Verify { new: linux_executable("1.2.0") });
    assert_eq!(step.status, None);

    let step = step.pipeline.step(reported("1.2.0"));
    assert_eq!(
        step.action,
        Action::Replace { strategy: ReplaceStrategy::DeleteFirst, new: linux_executable("1.2.0") }
    );
    assert_eq!(step.status, Some(Status::VerificationSucceeded));
    assert_eq!(step.pipeline.stage, Stage::Replacing);

    let step = step.pipeline.step(Event::Replaced);
    assert_eq!(step.action, Action::Finish(Outcome::Upgraded));
    assert_eq!(step.status, Some(Status::ReplacementSucceeded));
    assert_eq!(step.pipeline.stage, Stage::Finished);
    assert_eq!(step.pipeline.current, parse("1.0.0").unwrap());
    assert_eq!(step.pipeline.target, Some(parse("1.2.0").unwrap()));
}

#[test]
fn older_version_can_be_requested() {
    let step = start(false, false, Some("0.9.0"), "1.0.0");
    assert!(matches!(step.action, Action::FetchArchive { .. }));
    assert_eq!(step.pipeline.target, Some(parse("0.9.0").unwrap()));
}

#[test]
fn force_fetches_the_installed_version_again() {
    let step = start(false, true, Some("1.0.0"), "1.0.0");
    assert!(matches!(step.action, Action::FetchArchive { .. }));
    let step = start(false, true, None, "1.0.0");
    let step = step.pipeline.step(Event::PageFetched(String::from("v1.0.0 ")));
    assert!(matches!(step.action, Action::FetchArchive { .. }));
    let step = start(false, true, None, "1.0.0");
    let step = step.pipeline.step(Event::PageFetched(String::from("v0.5.0 ")));
    assert!(matches!(step.action, Action::FetchArchive { .. }));
    assert_eq!(step.pipeline.target, Some(parse("0.5.0").unwrap()));
}

#[test]
fn without_a_request_the_release_page_decides() {
    let step = start(false, false, None, "1.0.0");
    assert_eq!(
        step.action,
        Action::FetchLatest {
            url: String::from("https://github.com/denoland/deno/releases/latest")
        }
    );
    assert_eq!(step.status, None);
    assert_eq!(step.pipeline.stage, Stage::ResolvingLatest);
    let step = step.pipeline.step(Event::PageFetched(String::from("<a>v1.0.1 </a>")));
    assert_eq!(
        step.action,
        Action::FetchArchive {
            url: String::from(
                "https://github.com/denoland/deno/releases/download/v1.0.1/deno-x86_64-unknown-linux-gnu.zip"
            )
        }
    );
    assert_eq!(step.status, Some(Status::FetchStarted));
    assert_eq!(step.pipeline.target, Some(parse("1.0.1").unwrap()));
}

#[test]
fn newest_release_installed_ends_on_the_page() {
    for page in ["v1.0.0 ", "v0.42.0 "] {
        let step = start(false, false, None, "1.0.0");
        let step = step.pipeline.step(Event::PageFetched(String::from(page)));
        assert_eq!(step.action, Action::Finish(Outcome::AlreadyLatest));
        assert_eq!(step.pipeline.stage, Stage::Finished);
        assert_eq!(step.pipeline.target, None);
    }
}

#[test]
fn release_page_failures() {
    let step = start(false, false, None, "1.0.0").pipeline.step(Event::TransportFailed);
    assert_eq!(step.action, Action::Abort(UpgradeError::Network));
    let step = start(false, false, None, "1.0.0")
        .pipeline
        .step(Event::PageFetched(String::from("no release here")));
    assert_eq!(step.action, Action::Abort(UpgradeError::NotFound));
    let step = start(false, false, None, "1.0.0")
        .pipeline
        .step(Event::PageFetched(String::from("v1.02.3 ")));
    assert_eq!(step.action, Action::Abort(UpgradeError::InvalidVersion));
    let step = start(false, false, None, "1.0.0").pipeline.step(Event::ArchiveFetched(200));
    assert_eq!(step.action, Action::Abort(UpgradeError::UnexpectedEvent));
    assert_eq!(step.pipeline.stage, Stage::Failed);
}

#[test]
fn missing_archive_is_never_unpacked() {
    let step = start(false, false, Some("9.9.9"), "1.0.0");
    assert!(matches!(step.action, Action::FetchArchive { .. }));
    let step = step.pipeline.step(Event::ArchiveFetched(404));
    assert_eq!(step.action, Action::Abort(UpgradeError::VersionNotFound));
    assert_eq!(step.status, None);
    assert_eq!(step.pipeline.stage, Stage::Failed);
    let mut pipeline = step.pipeline;
    let later = [
        Event::ArchiveFetched(200),
        archive(),
        UNPACKED,
        Event::PermissionsCopied,
        reported("9.9.9"),
        Event::Replaced,
    ];
    for event in later {
        let step = pipeline.step(event);
        assert_eq!(step.action, Action::Abort(UpgradeError::UnexpectedEvent));
        assert_eq!(step.pipeline.stage, Stage::Failed);
        pipeline = step.pipeline;
    }
}

#[test]
fn download_failures_end_the_upgrade() {
    let fetching = || start(false, false, Some("1.2.0"), "1.0.0").pipeline;
    assert_eq!(
        fetching().step(Event::ArchiveFetched(500)).action,
        Action::Abort(UpgradeError::DownloadFailed(500))
    );
    assert_eq!(
        fetching().step(Event::ArchiveFetched(403)).action,
        Action::Abort(UpgradeError::DownloadFailed(403))
    );
    assert_eq!(fetching().step(Event::TransportFailed).action, Action::Abort(UpgradeError::Network));
    assert_eq!(fetching().step(UNPACKED).action, Action::Abort(UpgradeError::UnexpectedEvent));
    assert_eq!(fetching().step(archive()).action, Action::Abort(UpgradeError::UnexpectedEvent));
    assert_eq!(fetching().step(Event::ArchiveFetched(302)).action, Action::ReadArchive);
    let downloading = || fetching().step(Event::ArchiveFetched(200)).pipeline;
    assert_eq!(
        downloading().step(Event::TransportFailed).action,
        Action::Abort(UpgradeError::Network)
    );
    assert_eq!(
        downloading().step(Event::ArchiveFetched(200)).action,
        Action::Abort(UpgradeError::UnexpectedEvent)
    );
    assert_eq!(downloading().step(Event::IoFailed).action, Action::Abort(UpgradeError::UnexpectedEvent));
    let step = downloading().step(Event::ArchiveRead(vec![]));
    assert!(matches!(step.action, Action::Unpack { ref archive, .. } if archive.is_empty()));
}

#[test]
fn extraction_failures_end_the_upgrade() {
    let unpacking = || {
        let step = start(false, false, Some("1.2.0"), "1.0.0");
        let step = step.pipeline.step(Event::ArchiveFetched(200));
        step.pipeline.step(archive()).pipeline
    };
    assert_eq!(
        unpacking().step(Event::Unpacked { exit_success: false, executable_exists: true }).action,
        Action::Abort(UpgradeError::Extraction(ExtractionFailure::ProcessFailed))
    );
    assert_eq!(
        unpacking().step(Event::Unpacked { exit_success: true, executable_exists: false }).action,
        Action::Abort(UpgradeError::Extraction(ExtractionFailure::ExecutableMissing))
    );
    assert_eq!(unpacking().step(Event::IoFailed).action, Action::Abort(UpgradeError::Io));
    assert_eq!(
        unpacking().step(Event::TransportFailed).action,
        Action::Abort(UpgradeError::UnexpectedEvent)
    );
    assert_eq!(unpacking().step(Event::Replaced).action, Action::Abort(UpgradeError::UnexpectedEvent));
    let copying = || unpacking().step(UNPACKED).pipeline;
    assert_eq!(copying().step(Event::IoFailed).action, Action::Abort(UpgradeError::Io));
    assert_eq!(copying().step(UNPACKED).action, Action::Abort(UpgradeError::UnexpectedEvent));
}

fn verifying(dry_run: bool, platform: Platform) -> dvm::upgrade::UpgradePipeline {
    let step = upgrade_command(
        dry_run,
        false,
        Some(String::from("1.2.0")),
        parse("1.0.0").unwrap(),
        platform,
    );
    let step = step.pipeline.step(Event::ArchiveFetched(200));
    let step = step.pipeline.step(archive());
    let step = step.pipeline.step(UNPACKED);
    let step = step.pipeline.step(Event::PermissionsCopied);
    assert_eq!(step.pipeline.stage, Stage::Verifying);
    step.pipeline
}

#[test]
fn wrong_executable_is_never_installed() {
    let step = verifying(false, Platform::Linux).step(reported("1.1.0"));
    assert_eq!(
        step.action,
        Action::Abort(UpgradeError::Verification(VerificationFailure::Mismatch))
    );
    assert_eq!(step.pipeline.stage, Stage::Failed);
    assert_eq!(
        step.pipeline.step(Event::Replaced).action,
        Action::Abort(UpgradeError::UnexpectedEvent)
    );
    let step = verifying(false, Platform::Linux)
        .step(Event::VersionReported { exit_success: false, output: b"deno 1.2.0".to_vec() });
    assert_eq!(
        step.action,
        Action::Abort(UpgradeError::Verification(VerificationFailure::ExitFailure))
    );
    let step = verifying(false, Platform::Linux)
        .step(Event::VersionReported { exit_success: true, output: vec![0xff] });
    assert_eq!(
        step.action,
        Action::Abort(UpgradeError::Verification(VerificationFailure::NotUtf8))
    );
    assert_eq!(
        verifying(false, Platform::Linux).step(Event::IoFailed).action,
        Action::Abort(UpgradeError::Io)
    );
}

#[test]
fn dry_run_stops_after_verification() {
    let step = verifying(true, Platform::Linux).step(reported("1.2.0"));
    assert_eq!(step.action, Action::Finish(Outcome::Verified));
    assert_eq!(step.status, Some(Status::VerificationSucceeded));
    assert_eq!(step.pipeline.stage, Stage::Finished);
    let step = step.pipeline.step(Event::Replaced);
    assert_eq!(step.action, Action::Abort(UpgradeError::UnexpectedEvent));
    let step = verifying(true, Platform::Windows).step(reported("1.1.0"));
    assert_eq!(
        step.action,
        Action::Abort(UpgradeError::Verification(VerificationFailure::Mismatch))
    );
}

#[test]
fn dry_run_never_asks_for_a_replacement() {
    let scripts: Vec<Vec<Event>> = vec![
        vec![
            Event::ArchiveFetched(200),
            archive(),
            UNPACKED,
            Event::PermissionsCopied,
            reported("1.2.0"),
            Event::Replaced,
        ],
        vec![
            Event::ArchiveFetched(200),
            archive(),
            UNPACKED,
            Event::PermissionsCopied,
            reported("1.0.0"),
            Event::Replaced,
        ],
        vec![Event::ArchiveFetched(404), Event::Replaced, reported("1.2.0")],
        vec![Event::Replaced, Event::Replaced],
        vec![Event::ArchiveFetched(200), archive(), Event::IoFailed, reported("1.2.0")],
    ];
    for script in scripts {
        let first = start(true, true, Some("1.2.0"), "1.0.0");
        assert!(!matches!(first.action, Action::Replace { .. }));
        let mut pipeline = first.pipeline;
        for event in script {
            let step = pipeline.step(event);
            assert!(!matches!(step.action, Action::Replace { .. }));
            assert!(step.pipeline.dry_run);
            pipeline = step.pipeline;
        }
    }
}

#[test]
fn each_run_fetches_the_archive_at_most_once() {
    let scripts: Vec<Vec<Event>> = vec![
        vec![Event::PageFetched(String::from("v2.0.0 ")), Event::PageFetched(String::from("v3.0.0 "))],
        vec![Event::PageFetched(String::from("v2.0.0 ")), Event::ArchiveFetched(200), Event::PageFetched(String::from("v3.0.0 "))],
        vec![Event::PageFetched(String::from("v0.1.0 ")), Event::PageFetched(String::from("v3.0.0 "))],
        vec![Event::TransportFailed, Event::PageFetched(String::from("v3.0.0 "))],
    ];
    let expected = [1, 1, 0, 0];
    for (script, fetches) in scripts.into_iter().zip(expected) {
        let first = start(false, false, None, "1.0.0");
        let mut pages = usize::from(matches!(first.action, Action::FetchLatest { .. }));
        let mut archives = usize::from(matches!(first.action, Action::FetchArchive { .. }));
        let mut pipeline = first.pipeline;
        for event in script {
            let step = pipeline.step(event);
            pages += usize::from(matches!(step.action, Action::FetchLatest { .. }));
            archives += usize::from(matches!(step.action, Action::FetchArchive { .. }));
            pipeline = step.pipeline;
        }
        assert_eq!(pages, 1);
        assert_eq!(archives, fetches);
    }
}

#[test]
fn replacement_follows_the_platform() {
    let step = verifying(false, Platform::Windows).step(reported("1.2.0"));
    assert_eq!(
        step.action,
        Action::Replace {
            strategy: ReplaceStrategy::RenameAside,
            new: Location { directory: String::from("1.2.0"), file: String::from("deno.exe") }
        }
    );
    let step = verifying(false, Platform::MacOs).step(reported("1.2.0"));
    assert_eq!(
        step.action,
        Action::Replace { strategy: ReplaceStrategy::DeleteFirst, new: linux_executable("1.2.0") }
    );
    assert_eq!(ASIDE_EXTENSION, "old.exe");
}

#[test]
fn replacement_failures_name_the_step() {
    let replacing = || verifying(false, Platform::Linux).step(reported("1.2.0")).pipeline;
    for failed in [ReplaceStep::RemoveActive, ReplaceStep::RenameAside, ReplaceStep::CopyNew] {
        let step = replacing().step(Event::ReplaceFailed(failed));
        assert_eq!(step.action, Action::Abort(UpgradeError::Replace(failed)));
        assert_eq!(step.pipeline.stage, Stage::Failed);
    }
    assert_eq!(replacing().step(Event::IoFailed).action, Action::Abort(UpgradeError::Io));
    assert_eq!(
        replacing().step(reported("1.2.0")).action,
        Action::Abort(UpgradeError::UnexpectedEvent)
    );
}

#[test]
fn version_of_the_pipeline_is_kept() {
    let current: Version = parse("1.0.0-rc.1").unwrap();
    let step = upgrade_command(false, false, None, current.clone(), Platform::MacOs);
    assert_eq!(step.pipeline.current, current);
    assert_eq!(step.pipeline.platform, Platform::MacOs);
    assert!(!step.pipeline.dry_run);
    assert!(!step.pipeline.force);
}
