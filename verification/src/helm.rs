//! The command lines that drive `helm` and `kubectl` for a test cluster, and
//! the decisions taken on what the two programs answer. Running the
//! programs is left to the caller.

use vstd::prelude::*;
use crate::text::{append, joined, decimal_digits, push_decimal, push_text, same_text, texts};

verus! {

/// The most validators a test cluster may be asked to run.
pub const MAX_NUM_VALIDATORS: usize = 30;

/// Whether a cluster of `n` validators may be asked for.
pub fn validator_count_allowed(n: usize) -> (r: bool)
    ensures
        r == (n <= MAX_NUM_VALIDATORS),
{
    n <= MAX_NUM_VALIDATORS
}

/// The helm release of validator `i`: `val` and the number.
pub fn validator_release_name(i: u64) -> (r: String)
    ensures
        r@ == "val"@ + decimal_digits(i as nat),
{
    let mut out = "val".to_owned();
    push_decimal(&mut out, i);
    out
}

/// The file that keeps the helm values of validator `i` during an upgrade.
pub fn validator_status_file(i: u64) -> (r: String)
    ensures
        r@ == "val"@ + decimal_digits(i as nat) + "_status.json"@,
{
    let mut out = validator_release_name(i);
    append(&mut out, "_status.json");
    out
}

/// The chart of a validator in the repository `helm_repo`.
pub fn validator_chart(helm_repo: &str) -> (r: String)
    ensures
        r@ == helm_repo@ + "/aptos-validator"@,
{
    joined(helm_repo, "/aptos-validator")
}

/// The chart of the testnet in the repository `helm_repo`.
pub fn testnet_chart(helm_repo: &str) -> (r: String)
    ensures
        r@ == helm_repo@ + "/testnet"@,
{
    joined(helm_repo, "/testnet")
}

/// `helm upgrade` of a release to a chart: the three leading arguments,
/// then the options as given.
pub fn upgrade_helm_release(release_name: &str, helm_chart: &str, options: &Vec<String>) -> (r:
    Vec<String>)
    ensures
        texts(r@) == seq!["upgrade"@, release_name@, helm_chart@] + texts(options@),
{
    let mut args: Vec<String> = Vec::new();
    push_text(&mut args, "upgrade");
    push_text(&mut args, release_name);
    push_text(&mut args, helm_chart);
    assert(texts(args@) =~= seq!["upgrade"@, release_name@, helm_chart@]);
    let ghost head = texts(args@);
    let mut i: usize = 0;
    while i < options.len()
        invariant
            i <= options.len(),
            texts(args@) == head + texts(options@).take(i as int),
        decreases options.len() - i,
    {
        push_text(&mut args, options[i].as_str());
        i += 1;
        assert(texts(args@) =~= head + texts(options@).take(i as int));
    }
    assert(texts(options@).take(options.len() as int) =~= texts(options@));
    args
}

/// The options that set a validator's image tag and keep its other values.
pub open spec fn image_tag_options(image_tag: Seq<char>) -> Seq<Seq<char>> {
    seq!["--reuse-values"@, "--history-max"@, "2"@, "--set"@, "imageTag="@ + image_tag]
}

/// The arguments with which `helm` gives the validator `validator_name` the
/// image `image_tag`: an upgrade to the validator chart of `helm_repo`.
pub fn set_validator_image_tag(validator_name: &str, image_tag: &str, helm_repo: &str) -> (r:
    Vec<String>)
    ensures
        texts(r@) == seq!["upgrade"@, validator_name@, helm_repo@ + "/aptos-validator"@]
            + image_tag_options(image_tag@),
{
    let mut options: Vec<String> = Vec::new();
    push_text(&mut options, "--reuse-values");
    push_text(&mut options, "--history-max");
    push_text(&mut options, "2");
    push_text(&mut options, "--set");
    let tag = joined("imageTag=", image_tag);
    push_text(&mut options, tag.as_str());
    assert(texts(options@) =~= image_tag_options(image_tag@));
    upgrade_validator(validator_name, helm_repo, &options)
}

/// `helm upgrade` of a validator to the validator chart of `helm_repo`.
pub fn upgrade_validator(validator_name: &str, helm_repo: &str, options: &Vec<String>) -> (r:
    Vec<String>)
    ensures
        texts(r@) == seq!["upgrade"@, validator_name@, helm_repo@ + "/aptos-validator"@] + texts(
            options@,
        ),
{
    let chart = validator_chart(helm_repo);
    upgrade_helm_release(validator_name, chart.as_str(), options)
}

/// `helm upgrade` of the release `aptos` to the testnet chart of
/// `helm_repo`.
pub fn upgrade_testnet(helm_repo: &str, options: &Vec<String>) -> (r: Vec<String>)
    ensures
        texts(r@) == seq!["upgrade"@, "aptos"@, helm_repo@ + "/testnet"@] + texts(options@),
{
    let chart = testnet_chart(helm_repo);
    upgrade_helm_release("aptos", chart.as_str(), options)
}

/// The message for an upgrade that `helm` did not complete.
pub fn upgrade_failure_message(stderr: &str) -> (r: String)
    ensures
        r@ == "Upgrade not completed: "@ + stderr@,
{
    joined("Upgrade not completed: ", stderr)
}

/// `helm uninstall` of a release, keeping its history.
pub fn remove_helm_release(release_name: &str) -> (r: Vec<String>)
    ensures
        texts(r@) == seq!["uninstall"@, "--keep-history"@, release_name@],
{
    let mut args: Vec<String> = Vec::new();
    push_text(&mut args, "uninstall");
    push_text(&mut args, "--keep-history");
    push_text(&mut args, release_name);
    assert(texts(args@) =~= seq!["uninstall"@, "--keep-history"@, release_name@]);
    args
}

/// What the regular expression `pattern` answers when it is searched for
/// anywhere in `haystack`; `None` where `pattern` does not compile.
pub uninterp spec fn regex_search(pattern: Seq<char>, haystack: Seq<char>) -> Option<bool>;

/// `Regex::new` and then `Regex::is_match` of the crate regex. The contract
/// gives the answer a name and claims no more than that the answer depends
/// on the two texts alone.
#[verifier::external_body]
fn search(pattern: &str, haystack: &str) -> (r: Option<bool>)
    ensures
        r == regex_search(pattern@, haystack@),
{
    match regex::Regex::new(pattern) {
        Ok(re) => Some(re.is_match(haystack)),
        Err(_) => None,
    }
}

/// A removal counts as done where `helm` succeeded or the search of its
/// error output for the release being gone already found a match.
pub fn removal_done(success: bool, already_deleted: Option<bool>) -> (r: bool)
    ensures
        r == (success || already_deleted == Some(true)),
{
    match already_deleted {
        Some(found) => success || found,
        None => success,
    }
}

/// Whether `helm uninstall` that ended with `success` and wrote `stderr`
/// left the release removed.
pub fn release_removed(success: bool, stderr: &str) -> (r: bool)
    ensures
        r == (success || regex_search("already deleted"@, stderr@) == Some(true)),
{
    let found = search("already deleted", stderr);
    removal_done(success, found)
}

/// The secret in which helm keeps version `version` of a release.
pub fn release_secret_name(release_name: &str, version: u64) -> (r: String)
    ensures
        r@ == "sh.helm.release.v1."@ + release_name@ + ".v"@ + decimal_digits(version as nat),
{
    let mut out = joined("sh.helm.release.v1.", release_name);
    append(&mut out, ".v");
    push_decimal(&mut out, version);
    out
}

/// `kubectl patch` that marks a release's secret as deployed, so that helm
/// lets the release be upgraded later.
pub fn helm_release_patch(release_name: &str, version: u64) -> (r: Vec<String>)
    ensures
        texts(r@) == seq![
            "patch"@,
            "secret"@,
            "sh.helm.release.v1."@ + release_name@ + ".v"@ + decimal_digits(version as nat),
            "--type=merge"@,
            "-p"@,
            "{\"metadata\":{\"labels\":{\"status\":\"deployed\"}}}"@,
        ],
{
    let mut args: Vec<String> = Vec::new();
    push_text(&mut args, "patch");
    push_text(&mut args, "secret");
    let secret = release_secret_name(release_name, version);
    push_text(&mut args, secret.as_str());
    push_text(&mut args, "--type=merge");
    push_text(&mut args, "-p");
    push_text(&mut args, "{\"metadata\":{\"labels\":{\"status\":\"deployed\"}}}");
    assert(texts(args@) =~= seq![
        "patch"@,
        "secret"@,
        "sh.helm.release.v1."@ + release_name@ + ".v"@ + decimal_digits(version as nat),
        "--type=merge"@,
        "-p"@,
        "{\"metadata\":{\"labels\":{\"status\":\"deployed\"}}}"@,
    ]);
    args
}

/// `helm status` of a release, answered as JSON.
pub fn get_helm_status(helm_release_name: &str) -> (r: Vec<String>)
    ensures
        texts(r@) == seq!["status"@, helm_release_name@, "-o"@, "json"@],
{
    let mut args: Vec<String> = Vec::new();
    push_text(&mut args, "status");
    push_text(&mut args, helm_release_name);
    push_text(&mut args, "-o");
    push_text(&mut args, "json");
    assert(texts(args@) =~= seq!["status"@, helm_release_name@, "-o"@, "json"@]);
    args
}

/// `kubectl scale` of the stateful set `sts_name` to `replica_num`
/// replicas.
pub fn scale_sts_replica(sts_name: &str, replica_num: u64) -> (r: Vec<String>)
    ensures
        texts(r@) == seq![
            "scale"@,
            "sts"@,
            sts_name@,
            "--replicas="@ + decimal_digits(replica_num as nat),
        ],
{
    let mut args: Vec<String> = Vec::new();
    push_text(&mut args, "scale");
    push_text(&mut args, "sts");
    push_text(&mut args, sts_name);
    let mut replicas = "--replicas=".to_owned();
    push_decimal(&mut replicas, replica_num);
    push_text(&mut args, replicas.as_str());
    assert(texts(args@) =~= seq![
        "scale"@,
        "sts"@,
        sts_name@,
        "--replicas="@ + decimal_digits(replica_num as nat),
    ]);
    args
}

/// The options with which a validator is brought to a new era: its saved
/// values, the era and the image.
pub fn validator_upgrade_options(values_file: &str, era: &str, image_tag: &str) -> (r: Vec<
    String,
>)
    ensures
        texts(r@) == seq![
            "-f"@,
            values_file@,
            "--install"@,
            "--history-max"@,
            "2"@,
            "--set"@,
            "chain.era="@ + era@,
            "--set"@,
            "imageTag="@ + image_tag@,
        ],
{
    let mut args: Vec<String> = Vec::new();
    push_text(&mut args, "-f");
    push_text(&mut args, values_file);
    push_text(&mut args, "--install");
    push_text(&mut args, "--history-max");
    push_text(&mut args, "2");
    push_text(&mut args, "--set");
    let era_option = joined("chain.era=", era);
    push_text(&mut args, era_option.as_str());
    push_text(&mut args, "--set");
    let tag = joined("imageTag=", image_tag);
    push_text(&mut args, tag.as_str());
    assert(texts(args@) =~= seq![
        "-f"@,
        values_file@,
        "--install"@,
        "--history-max"@,
        "2"@,
        "--set"@,
        "chain.era="@ + era@,
        "--set"@,
        "imageTag="@ + image_tag@,
    ]);
    args
}

/// The directory of the genesis modules inside the init image.
pub open spec fn default_modules_dir() -> Seq<char> {
    "/aptos-framework/move/modules"@
}

/// The options with which the testnet release runs genesis for a new era.
/// Without `genesis_modules_path` the modules come from the directory in
/// the init image.
pub fn testnet_upgrade_options(
    values_file: &str,
    era: &str,
    num_validators: u64,
    image_tag: &str,
    genesis_modules_path: Option<&str>,
) -> (r: Vec<String>)
    ensures
        texts(r@) == seq![
            "-f"@,
            values_file@,
            "--install"@,
            "--history-max"@,
            "2"@,
            "--set"@,
            "genesis.era="@ + era@,
            "--set"@,
            "genesis.numValidators="@ + decimal_digits(num_validators as nat),
            "--set"@,
            "imageTag="@ + image_tag@,
            "--set"@,
            "monitoring.prometheus.useHttps=false"@,
            "--set"@,
            "genesis.moveModuleDir="@ + match genesis_modules_path {
                Some(path) => path@,
                None => default_modules_dir(),
            },
        ],
{
    let mut args: Vec<String> = Vec::new();
    push_text(&mut args, "-f");
    push_text(&mut args, values_file);
    push_text(&mut args, "--install");
    push_text(&mut args, "--history-max");
    push_text(&mut args, "2");
    push_text(&mut args, "--set");
    let era_option = joined("genesis.era=", era);
    push_text(&mut args, era_option.as_str());
    push_text(&mut args, "--set");
    let mut count = "genesis.numValidators=".to_owned();
    push_decimal(&mut count, num_validators);
    push_text(&mut args, count.as_str());
    push_text(&mut args, "--set");
    let tag = joined("imageTag=", image_tag);
    push_text(&mut args, tag.as_str());
    push_text(&mut args, "--set");
    push_text(&mut args, "monitoring.prometheus.useHttps=false");
    push_text(&mut args, "--set");
    let dir = match genesis_modules_path {
        Some(path) => joined("genesis.moveModuleDir=", path),
        None => joined("genesis.moveModuleDir=", "/aptos-framework/move/modules"),
    };
    push_text(&mut args, dir.as_str());
    assert(texts(args@) =~= seq![
        "-f"@,
        values_file@,
        "--install"@,
        "--history-max"@,
        "2"@,
        "--set"@,
        "genesis.era="@ + era@,
        "--set"@,
        "genesis.numValidators="@ + decimal_digits(num_validators as nat),
        "--set"@,
        "imageTag="@ + image_tag@,
        "--set"@,
        "monitoring.prometheus.useHttps=false"@,
        "--set"@,
        "genesis.moveModuleDir="@ + match genesis_modules_path {
            Some(path) => path@,
            None => default_modules_dir(),
        },
    ]);
    args
}

/// The name of the job that runs genesis for `era`.
pub fn genesis_job_name(era: &str) -> (r: String)
    ensures
        r@ == "aptos-testnet-genesis-e"@ + era@,
{
    joined("aptos-testnet-genesis-e", era)
}

/// The genesis job is complete once exactly one of its pods has succeeded.
pub fn genesis_job_completed(succeeded: Option<i32>) -> (r: bool)
    ensures
        r == (succeeded == Some(1i32)),
{
    match succeeded {
        Some(n) => n == 1,
        None => false,
    }
}

/// The era named after the number `n`: `fg` and the number.
pub fn era_name(n: u32) -> (r: String)
    ensures
        r@ == "fg"@ + decimal_digits(n as nat),
{
    let mut out = "fg".to_owned();
    push_decimal(&mut out, n as u64);
    out
}

/// `Rng::gen` of the crate rand, on the generator that `thread_rng` hands
/// out. Nothing is claimed of the number.
#[verifier::external_body]
fn random_number() -> (r: u32) {
    rand::Rng::gen::<u32>(&mut rand::thread_rng())
}

/// A fresh era with a name drawn at random.
pub fn get_new_era() -> (r: String)
    ensures
        exists|n: u32| r@ == "fg"@ + decimal_digits(n as nat),
{
    let n = random_number();
    era_name(n)
}

/// A new era must differ from the era of the release that it replaces.
pub fn era_is_new(new_era: &str, past_era: &str) -> (r: bool)
    ensures
        r == (new_era@ != past_era@),
{
    !same_text(new_era, past_era)
}

/// The value that a release's configuration holds for its era, as far as
/// it matters here: helm may have read the era as a number.
#[derive(Debug)]
pub enum EraValue {
    /// A number, in the text that stands for it.
    Number(String),
    /// A string.
    Text(String),
    /// Anything else, in the text that stands for it.
    Other(String),
}

/// The era as text: a number's numeral, or a string as it is.
pub open spec fn era_text(era: &EraValue) -> Result<Seq<char>, Seq<char>> {
    match era {
        EraValue::Number(n) => Ok(n@),
        EraValue::Text(s) => Ok(s@),
        EraValue::Other(v) => Err("Era is not a number "@ + v@),
    }
}

/// The era of a release as text, or the message that says what was found
/// in its place.
pub fn era_to_string(era_value: &EraValue) -> (r: Result<String, String>)
    ensures
        match r {
            Ok(s) => era_text(era_value) == Ok::<Seq<char>, Seq<char>>(s@),
            Err(m) => era_text(era_value) == Err::<Seq<char>, Seq<char>>(m@),
        },
{
    match era_value {
        EraValue::Number(n) => Ok(n.clone()),
        EraValue::Text(s) => Ok(s.clone()),
        EraValue::Other(v) => Err(joined("Era is not a number ", v.as_str())),
    }
}

} // verus!
