use vstd::prelude::*;

use crate::address::{
    accepted_addresses, address_check, base58_decoding, is_base58, rejected_messages, split_at_newlines,
    strings_view, text_lines,
};
use crate::text::{is_padding, trimmed};
use crate::text::{decimal, decimal_text, integer, integer_text};
use vstd::string::StringSliceAdditionalSpecFns;

verus! {

/// The part of an access policy document before the service name.
pub open spec fn policy_head() -> Seq<char> {
    "{\n                \"Version\": \"2012-10-17\",\n                \"Statement\": [{\n                    \"Effect\": \"Allow\",\n                    \"Action\": \""@
}

/// The part of an access policy document after the service name.
pub open spec fn policy_tail() -> Seq<char> {
    ":*\",\n                    \"Resource\": \"*\"}]}"@
}

/// The access policy document that allows every action of `service` on every
/// resource.
pub open spec fn policy_document_text(service: Seq<char>) -> Seq<char> {
    policy_head() + service + policy_tail()
}

/// The name of the policy for `service` in a run identified by `id`.
pub open spec fn policy_name_text(service: Seq<char>, id: Seq<char>) -> Seq<char> {
    service + "_policy_"@ + id
}

/// Builds the access policy document that allows every action of `service`.
pub fn policy_document(service: &str) -> (r: String)
    ensures
        r@ == policy_document_text(service@),
{
    let mut r = String::from_str("{\n                \"Version\": \"2012-10-17\",\n                \"Statement\": [{\n                    \"Effect\": \"Allow\",\n                    \"Action\": \"");
    r.append(service);
    r.append(":*\",\n                    \"Resource\": \"*\"}]}");
    r
}

/// Builds the name of the policy for `service` in a run identified by `id`.
pub fn policy_name(service: &str, id: &str) -> (r: String)
    ensures
        r@ == policy_name_text(service@, id@),
{
    let mut r = String::from_str(service);
    r.append("_policy_");
    r.append(id);
    r
}


/// Whether `c` is a lowercase hexadecimal digit.
pub open spec fn is_lower_hex(c: char) -> bool {
    ('0' <= c <= '9') || ('a' <= c <= 'f')
}

/// Whether `s` is the text of a random (version 4) UUID: 36 characters,
/// hyphens at positions 8, 13, 18 and 23, lowercase hexadecimal digits
/// elsewhere, the version digit `4` at position 14 and one of `8`, `9`, `a`,
/// `b` at position 19.
pub open spec fn is_uuid_v4_text(s: Seq<char>) -> bool {
    &&& s.len() == 36
    &&& forall|i: int|
        0 <= i < 36 ==> if i == 8 || i == 13 || i == 18 || i == 23 {
            s[i] == '-'
        } else {
            is_lower_hex(#[trigger] s[i])
        }
    &&& s[14] == '4'
    &&& (s[19] == '8' || s[19] == '9' || s[19] == 'a' || s[19] == 'b')
}

/// A fresh random identifier: sixteen bytes from the operating system's
/// random source (`rand::rngs::OsRng::try_fill_bytes`), made a version 4 UUID
/// by `uuid::Builder::from_random_bytes` and written in its standard text
/// form. Claimed of it: when the random source delivers, the text has the
/// hyphenated lowercase form of a version 4 UUID; when it fails, the result
/// is `None`. Which value comes out is left open, as it rests on chance.
#[verifier::external_body]
fn new_uuid_text() -> (r: Option<String>)
    ensures
        r matches Some(t) ==> is_uuid_v4_text(t@),
{
    let mut bytes = [0u8; 16];
    match rand::TryRngCore::try_fill_bytes(&mut rand::rngs::OsRng, &mut bytes) {
        Ok(()) => Some(uuid::Builder::from_random_bytes(bytes).into_uuid().to_string()),
        Err(_) => None,
    }
}

/// A request to create one access policy: the label to report it by, its
/// name and its document.
#[derive(Debug)]
pub struct PolicyRequest {
    pub label: String,
    pub name: String,
    pub document: String,
}

/// Whether `r` asks for the policy of `service`, reported as `label`, in a run
/// identified by `id`.
pub open spec fn is_policy_request(r: PolicyRequest, service: Seq<char>, label: Seq<char>, id: Seq<char>) -> bool {
    &&& r.label@ == label
    &&& r.name@ == policy_name_text(service, id)
    &&& r.document@ == policy_document_text(service)
}

/// Whether `rs` are the requests for the policies that a cloud worker needs,
/// in a run identified by `id`: Systems Manager, S3, EC2 and IAM, in that order.
pub open spec fn is_policy_set(rs: Seq<PolicyRequest>, id: Seq<char>) -> bool {
    &&& rs.len() == 4
    &&& is_policy_request(rs[0], "ssm"@, "SSM"@, id)
    &&& is_policy_request(rs[1], "s3"@, "S3"@, id)
    &&& is_policy_request(rs[2], "ec2"@, "EC2"@, id)
    &&& is_policy_request(rs[3], "iam"@, "IAM"@, id)
}

/// Builds the request for the policy of `service`, reported as `label`.
pub fn policy_request(service: &str, label: &str, id: &str) -> (r: PolicyRequest)
    ensures
        is_policy_request(r, service@, label@, id@),
{
    PolicyRequest {
        label: String::from_str(label),
        name: policy_name(service, id),
        document: policy_document(service),
    }
}

/// Builds the requests for the policies that a cloud worker needs, in a run
/// identified by `id`.
pub fn policy_requests(id: &str) -> (r: Vec<PolicyRequest>)
    ensures
        is_policy_set(r@, id@),
{
    let mut r = Vec::new();
    r.push(policy_request("ssm", "SSM", id));
    r.push(policy_request("s3", "S3", id));
    r.push(policy_request("ec2", "EC2", id));
    r.push(policy_request("iam", "IAM", id));
    r
}

/// Builds the policy requests for a new run, under a fresh random identifier,
/// which comes back with them; `None` when no random identifier can be had.
pub fn new_policy_requests() -> (r: Option<(String, Vec<PolicyRequest>)>)
    ensures
        r matches Some(p) ==> is_uuid_v4_text(p.0@) && is_policy_set(p.1@, p.0@),
{
    match new_uuid_text() {
        Some(id) => {
            let requests = policy_requests(id.as_str());
            Some((id, requests))
        },
        None => None,
    }
}

/// The name of the bucket that holds the token list of a run identified by
/// `id`.
pub open spec fn bucket_name_text(id: Seq<char>) -> Seq<char> {
    "snipertrader-tokens-"@ + id
}

/// Builds the name of the bucket for the token list of a run identified by
/// `id`.
pub fn bucket_name(id: &str) -> (r: String)
    ensures
        r@ == bucket_name_text(id@),
{
    let mut r = String::from_str("snipertrader-tokens-");
    r.append(id);
    r
}

/// A bucket name for a new token list upload, under a fresh random
/// identifier; `None` when no random identifier can be had.
pub fn new_bucket_name() -> (r: Option<String>)
    ensures
        r matches Some(name) ==> exists|id: Seq<char>| is_uuid_v4_text(id) && name@ == bucket_name_text(id),
{
    match new_uuid_text() {
        Some(id) => Some(bucket_name(id.as_str())),
        None => None,
    }
}


/// The command line that runs the trader on a cloud instance.
pub open spec fn worker_command_text(
    total: Seq<char>,
    time: Seq<char>,
    workers: usize,
    stop_loss: Option<Seq<char>>,
    take_profit: Option<Seq<char>>,
    log: bool,
    token_file: bool,
) -> Seq<char> {
    "sniper-trader -e "@ + total + " -t "@ + time + " -w "@ + decimal_text(workers as nat) + (
    match (stop_loss, take_profit) {
        (Some(sl), Some(tp)) => " -s "@ + sl + " -p "@ + tp,
        _ => Seq::empty(),
    }) + (if log {
        " -l"@
    } else {
        Seq::empty()
    }) + (if token_file {
        " -f /root/copy.lst"@
    } else {
        Seq::empty()
    })
}

/// The view of an optional string slice.
pub open spec fn str_option_view(o: Option<&str>) -> Option<Seq<char>> {
    match o {
        Some(s) => Some(s@),
        None => None,
    }
}

/// Builds the command line that runs the trader on a cloud instance, for a
/// total run time `total`, a holding time `time`, `workers` workers, the
/// stop-loss and take-profit levels (both or neither), logging to a file, and
/// a token list file copied to the instance.
pub fn worker_command(
    total: &str,
    time: &str,
    workers: usize,
    stop_loss: Option<&str>,
    take_profit: Option<&str>,
    log: bool,
    token_file: bool,
) -> (r: String)
    requires
        stop_loss is Some <==> take_profit is Some,
    ensures
        r@ == worker_command_text(
            total@,
            time@,
            workers,
            str_option_view(stop_loss),
            str_option_view(take_profit),
            log,
            token_file,
        ),
{
    let mut r = String::from_str("sniper-trader -e ");
    r.append(total);
    r.append(" -t ");
    r.append(time);
    r.append(" -w ");
    r.append(decimal(workers as u64).as_str());
    let ghost base = r@;
    match (stop_loss, take_profit) {
        (Some(sl), Some(tp)) => {
            r.append(" -s ");
            r.append(sl);
            r.append(" -p ");
            r.append(tp);
        },
        _ => {},
    }
    let ghost with_levels = r@;
    if log {
        r.append(" -l");
    }
    let ghost with_log = r@;
    if token_file {
        r.append(" -f /root/copy.lst");
    }
    proof {
        let e = Seq::<char>::empty();
        assert(base + e =~= base);
        assert(with_levels + e =~= with_levels);
        assert(with_log + e =~= with_log);
    }
    r
}

/// Whether the tokens are uploaded for a cloud worker: there is at least
/// one, and the first is not the placeholder `None`.
pub open spec fn uploads_tokens_spec(tokens: Seq<Seq<char>>) -> bool {
    tokens.len() > 0 && tokens[0] != "None"@
}

/// Whether the tokens are uploaded for a cloud worker.
pub fn uploads_tokens(tokens: &Vec<String>) -> (r: bool)
    ensures
        r == uploads_tokens_spec(strings_view(tokens@)),
        r <==> (tokens@.len() > 0 && tokens@[0]@ != "None"@),
{
    if tokens.len() == 0 {
        false
    } else {
        let none = String::from_str("None");
        !(tokens[0] == none)
    }
}

/// The tokens joined by line feeds, each line closed by a line feed (a lone
/// line feed when there are none).
pub open spec fn token_file_text(tokens: Seq<Seq<char>>) -> Seq<char>
    decreases tokens.len(),
{
    if tokens.len() == 0 {
        seq!['\n']
    } else if tokens.len() == 1 {
        tokens[0] + seq!['\n']
    } else {
        token_file_text(tokens.drop_last()) + tokens.last() + seq!['\n']
    }
}

/// Builds the token list file that is uploaded for a cloud worker.
pub fn token_file_body(tokens: &Vec<String>) -> (r: String)
    ensures
        r@ == token_file_text(strings_view(tokens@)),
{
    let ghost v = strings_view(tokens@);
    proof {
        reveal_strlit("\n");
    }
    if tokens.len() == 0 {
        let r = String::from_str("\n");
        assert(r@ =~= seq!['\n']);
        return r;
    }
    let mut r = String::from_str(tokens[0].as_str());
    r.append("\n");
    assert(r@ =~= token_file_text(v.take(1)));
    let mut i: usize = 1;
    while i < tokens.len()
        invariant
            1 <= i <= tokens.len(),
            v == strings_view(tokens@),
            r@ == token_file_text(v.take(i as int)),
        decreases tokens.len() - i,
    {
        let ghost before = r@;
        r.append(tokens[i].as_str());
        r.append("\n");
        proof {
            reveal_strlit("\n");
            let t = v.take(i + 1);
            assert(t.drop_last() =~= v.take(i as int));
            assert(t.last() == tokens@[i as int]@);
            assert(token_file_text(t) == token_file_text(t.drop_last()) + t.last() + seq!['\n']);
            assert(r@ =~= before + tokens@[i as int]@ + seq!['\n']);
        }
        i = i + 1;
    }
    assert(v.take(tokens.len() as int) =~= v);
    r
}

/// The key under which the token list is stored in the bucket.
pub const TOKEN_FILE_KEY: &'static str = "tokens.lst";

/// The script line that copies the token list from `bucket` onto the instance.
pub open spec fn copy_line_text(bucket: Seq<char>, key: Seq<char>) -> Seq<char> {
    "aws s3 cp s3://"@ + bucket + "/"@ + key + " /root/copy.lst\n"@
}

/// The script line that removes `bucket` with its contents.
pub open spec fn remove_line_text(bucket: Seq<char>) -> Seq<char> {
    "aws s3 rb s3://"@ + bucket + " --force\n"@
}

/// Builds the script line that copies the object `key` from `bucket` onto the
/// instance.
pub fn copy_line(bucket: &str, key: &str) -> (r: String)
    ensures
        r@ == copy_line_text(bucket@, key@),
{
    let mut r = String::from_str("aws s3 cp s3://");
    r.append(bucket);
    r.append("/");
    r.append(key);
    r.append(" /root/copy.lst\n");
    r
}

/// Builds the script line that removes `bucket` with its contents.
pub fn remove_line(bucket: &str) -> (r: String)
    ensures
        r@ == remove_line_text(bucket@),
{
    let mut r = String::from_str("aws s3 rb s3://");
    r.append(bucket);
    r.append(" --force\n");
    r
}

/// The start of the instance's startup script: the tools it installs.
pub open spec fn script_setup_text() -> Seq<char> {
    "#!/bin/bash\nexport HOME=/root\nsudo dnf install git gcc -y\n"@
}

/// The middle of the startup script: installing the trader.
pub open spec fn script_install_text() -> Seq<char> {
    "curl --proto '=https' --tlsv1.2 https://sh.rustup.rs -sSf | sh -s -- -y\n. \"$HOME/.cargo/env\"\ngit clone https://github.com/K-spec-ops/solana-tools.git\ncd solana-tools\ncargo install --path .\n"@
}

/// The startup script of a cloud instance: set up, fetch the token list (when
/// `fetch` is not empty), install the trader, run `command`, then `cleanup`.
pub open spec fn startup_script_text(fetch: Seq<char>, command: Seq<char>, cleanup: Seq<char>) -> Seq<char> {
    script_setup_text() + fetch + script_install_text() + command + "\n"@ + cleanup
}

/// Builds the startup script of a cloud instance.
pub fn startup_script(fetch: &str, command: &str, cleanup: &str) -> (r: String)
    ensures
        r@ == startup_script_text(fetch@, command@, cleanup@),
{
    let mut r = String::from_str("#!/bin/bash\nexport HOME=/root\nsudo dnf install git gcc -y\n");
    r.append(fetch);
    r.append(
        "curl --proto '=https' --tlsv1.2 https://sh.rustup.rs -sSf | sh -s -- -y\n. \"$HOME/.cargo/env\"\ngit clone https://github.com/K-spec-ops/solana-tools.git\ncd solana-tools\ncargo install --path .\n",
    );
    r.append(command);
    r.append("\n");
    r.append(cleanup);
    r
}

/// The character of the standard Base64 alphabet (`A`-`Z`, `a`-`z`, `0`-`9`,
/// `+`, `/`) for the six-bit value `v`.
pub open spec fn base64_char(v: int) -> char {
    if v < 26 {
        (v + 'A' as int) as char
    } else if v < 52 {
        (v - 26 + 'a' as int) as char
    } else if v < 62 {
        (v - 52 + '0' as int) as char
    } else if v == 62 {
        '+'
    } else {
        '/'
    }
}

/// The standard Base64 text of `b`: each group of three bytes, read as a
/// 24-bit number, gives four characters of six bits each, most significant
/// first; a last group of one or two bytes is filled with zero bits and its
/// missing characters are written as `=`.
pub open spec fn base64_padded(b: Seq<u8>) -> Seq<char>
    decreases b.len(),
{
    if b.len() == 0 {
        Seq::empty()
    } else if b.len() == 1 {
        let n = b[0] * 65536;
        seq![base64_char(n / 262144), base64_char((n / 4096) % 64), '=', '=']
    } else if b.len() == 2 {
        let n = b[0] * 65536 + b[1] * 256;
        seq![base64_char(n / 262144), base64_char((n / 4096) % 64), base64_char((n / 64) % 64), '=']
    } else {
        let n = b[0] * 65536 + b[1] * 256 + b[2];
        seq![
            base64_char(n / 262144),
            base64_char((n / 4096) % 64),
            base64_char((n / 64) % 64),
            base64_char(n % 64),
        ] + base64_padded(b.subrange(3, b.len() as int))
    }
}

/// Encodes the UTF-8 bytes of `text` by
/// `base64::engine::general_purpose::STANDARD.encode`. Claimed of it: the
/// result is the standard Base64 text, with padding, of those bytes. The
/// crate panics when the encoded length does not fit in `usize`, which the
/// precondition rules out.
#[verifier::external_body]
fn base64_standard(text: &str) -> (r: String)
    requires
        text.spec_bytes().len() <= usize::MAX / 4 * 3,
    ensures
        r@ == base64_padded(text.spec_bytes()),
{
    base64::Engine::encode(&base64::engine::general_purpose::STANDARD, text)
}

/// Encodes a startup script for the instance's user data, in standard Base64.
pub fn encode_user_data(script: &str) -> (r: String)
    requires
        script.spec_bytes().len() <= usize::MAX / 4 * 3,
    ensures
        r@ == base64_padded(script.spec_bytes()),
{
    base64_standard(script)
}

/// The name of the state of an instance, by its state code.
pub open spec fn instance_state_text(code: Option<i32>) -> Seq<char> {
    match code {
        Some(0) => "pending"@,
        Some(16) => "running"@,
        Some(32) => "shutting down"@,
        Some(48) => "terminated"@,
        _ => "None"@,
    }
}

/// Names the state of an instance by its state code.
pub fn instance_state_name(code: Option<i32>) -> (r: &'static str)
    ensures
        r@ == instance_state_text(code),
{
    match code {
        Some(0) => "pending",
        Some(16) => "running",
        Some(32) => "shutting down",
        Some(48) => "terminated",
        _ => "None",
    }
}

/// How a worker is started.
#[derive(PartialEq, Eq, Structural, Clone, Copy, Debug)]
pub enum LaunchPlan {
    /// On a new cloud instance.
    Cloud,
    /// As a local process, which logs to a file or not.
    Local { log_to_file: bool },
}

/// How a worker is started: on a cloud instance when asked to, else
/// locally, logging to a file when there is more than one worker or logging
/// was asked for.
pub open spec fn launch_plan(cloud: bool, workers: usize, log: bool) -> LaunchPlan {
    if cloud {
        LaunchPlan::Cloud
    } else {
        LaunchPlan::Local { log_to_file: workers > 1 || log }
    }
}

/// Decides how a worker is started.
pub fn plan_launch(cloud: bool, workers: usize, log: bool) -> (r: LaunchPlan)
    ensures
        r == launch_plan(cloud, workers, log),
        cloud ==> r == LaunchPlan::Cloud,
        !cloud ==> r == (LaunchPlan::Local { log_to_file: workers > 1 || log }),
{
    if cloud {
        LaunchPlan::Cloud
    } else {
        LaunchPlan::Local { log_to_file: workers > 1 || log }
    }
}

/// The log directory passed to a local worker under `plan`: the project
/// directory `project_dir` when it logs to a file, else empty text, which
/// makes the worker log to the terminal.
pub open spec fn worker_log_dir_text(plan: LaunchPlan, project_dir: Seq<char>) -> Seq<char> {
    match plan {
        LaunchPlan::Local { log_to_file } => if log_to_file {
            project_dir
        } else {
            Seq::empty()
        },
        LaunchPlan::Cloud => Seq::empty(),
    }
}

/// Picks the log directory passed to a local worker under `plan`.
pub fn worker_log_dir(plan: LaunchPlan, project_dir: &str) -> (r: String)
    ensures
        r@ == worker_log_dir_text(plan, project_dir@),
{
    match plan {
        LaunchPlan::Local { log_to_file } => if log_to_file {
            String::from_str(project_dir)
        } else {
            String::new()
        },
        LaunchPlan::Cloud => String::new(),
    }
}

/// Logging to a file is what several local workers do anyway: with more than
/// one worker, each gets the project directory whether or not logging was
/// asked for, and a single worker gets it exactly when logging was asked for.
pub proof fn log_flag_matters_for_one_worker_only(workers: usize, log: bool, project_dir: Seq<char>)
    ensures
        workers > 1 ==> worker_log_dir_text(launch_plan(false, workers, log), project_dir)
            == project_dir,
        workers <= 1 ==> worker_log_dir_text(launch_plan(false, workers, log), project_dir) == (
        if log {
            project_dir
        } else {
            Seq::<char>::empty()
        }),
{
}

/// What a worker's cloud instance is started with.
#[derive(Debug)]
pub struct InstancePlan {
    /// The machine image: Amazon Linux 2023 for Arm64.
    pub image_id: String,
    /// The instance type.
    pub instance_type: String,
    /// The availability zone.
    pub zone: String,
    /// How many instances to start, at least and at most.
    pub count: i32,
    /// Whether shutting the instance down from inside terminates it.
    pub terminate_on_shutdown: bool,
}

/// The instance that a cloud worker runs on: one `r6g.large` instance of
/// image `ami-0eb45f74aa8a20238` in `us-east-1a`, terminated when it shuts
/// down.
pub fn worker_instance_plan() -> (r: InstancePlan)
    ensures
        r.image_id@ == "ami-0eb45f74aa8a20238"@,
        r.instance_type@ == "r6g.large"@,
        r.zone@ == "us-east-1a"@,
        r.count == 1,
        r.terminate_on_shutdown,
{
    InstancePlan {
        image_id: String::from_str("ami-0eb45f74aa8a20238"),
        instance_type: String::from_str("r6g.large"),
        zone: String::from_str("us-east-1a"),
        count: 1,
        terminate_on_shutdown: true,
    }
}

/// The text passed for an optional level: the level, or empty text when
/// there is none.
pub open spec fn level_text(level: Option<Seq<char>>) -> Seq<char> {
    match level {
        Some(l) => l,
        None => Seq::empty(),
    }
}

/// The arguments of a local trader process.
pub open spec fn trader_arguments_spec(
    time: Seq<char>,
    stop_loss: Option<Seq<char>>,
    take_profit: Option<Seq<char>>,
    index: usize,
    log_dir: Seq<char>,
    tokens: Seq<Seq<char>>,
    total_seconds: Seq<char>,
) -> Seq<Seq<char>> {
    seq![
        time,
        level_text(stop_loss),
        level_text(take_profit),
        decimal_text(index as nat),
        log_dir,
    ] + tokens + seq![total_seconds]
}

/// Builds the arguments of the local trader process of worker `index`: the
/// holding time, the stop-loss and take-profit levels (empty text for a
/// level that is not set, as in a run by time alone), the worker's index,
/// the log directory (empty when it does not log to a file), the tokens, and
/// the total run time in seconds.
pub fn trader_arguments(
    time: &str,
    stop_loss: Option<&str>,
    take_profit: Option<&str>,
    index: usize,
    log_dir: &str,
    tokens: &Vec<String>,
    total_seconds: &str,
) -> (r: Vec<String>)
    ensures
        strings_view(r@) == trader_arguments_spec(
            time@,
            str_option_view(stop_loss),
            str_option_view(take_profit),
            index,
            log_dir@,
            strings_view(tokens@),
            total_seconds@,
        ),
{
    let mut r: Vec<String> = Vec::new();
    r.push(String::from_str(time));
    r.push(level_string(stop_loss));
    r.push(level_string(take_profit));
    r.push(decimal(index as u64));
    r.push(String::from_str(log_dir));
    let ghost head = strings_view(r@);
    let ghost tv = strings_view(tokens@);
    let mut i: usize = 0;
    while i < tokens.len()
        invariant
            i <= tokens.len(),
            tv == strings_view(tokens@),
            strings_view(r@) == head + tv.take(i as int),
        decreases tokens.len() - i,
    {
        let ghost before = r@;
        let t = tokens[i].clone();
        r.push(t);
        assert(tv[i as int] == tokens@[i as int]@);
        assert(strings_view(r@) =~= strings_view(before).push(tokens@[i as int]@));
        assert(strings_view(r@) =~= head + tv.take(i + 1));
        i = i + 1;
    }
    r.push(String::from_str(total_seconds));
    assert(tv.take(tokens.len() as int) =~= tv);
    assert(strings_view(r@) =~= head + tv + seq![total_seconds@]);
    r
}

/// The text passed for an optional level.
fn level_string(level: Option<&str>) -> (r: String)
    ensures
        r@ == level_text(str_option_view(level)),
{
    match level {
        Some(l) => String::from_str(l),
        None => String::new(),
    }
}

/// The name of the log file of trader `id` on a given day.
pub open spec fn trader_log_name_text(id: usize, month: int, day: int, year: int) -> Seq<char> {
    "trader-w"@ + decimal_text(id as nat) + "-"@ + integer_text(month) + "-"@ + integer_text(day)
        + "-"@ + integer_text(year) + ".log"@
}

/// Builds the name of the log file of trader `id` on a given day.
pub fn trader_log_name(id: usize, month: i8, day: i8, year: i16) -> (r: String)
    ensures
        r@ == trader_log_name_text(id, month as int, day as int, year as int),
{
    let mut r = String::from_str("trader-w");
    r.append(decimal(id as u64).as_str());
    r.append("-");
    r.append(integer(month as i64).as_str());
    r.append("-");
    r.append(integer(day as i64).as_str());
    r.append("-");
    r.append(integer(year as i64).as_str());
    r.append(".log");
    r
}

/// Today's month, day and year in the system's time zone, from
/// `jiff::Zoned::try_from(std::time::SystemTime::now())`. Claimed of it: when
/// jiff accepts the clock's time, the month lies in 1 to 12, the day in 1 to
/// 31 and the year in -9999 to 9999, which is the range of jiff's dates; when
/// the clock lies outside that range, the result is `None`. Which day it is
/// rests on the clock and the time zone and is left open.
#[verifier::external_body]
fn today() -> (r: Option<(i8, i8, i16)>)
    ensures
        r matches Some(d) ==> 1 <= d.0 <= 12 && 1 <= d.1 <= 31 && -9999 <= d.2 <= 9999,
{
    match jiff::Zoned::try_from(std::time::SystemTime::now()) {
        Ok(now) => Some((now.month(), now.day(), now.year())),
        Err(_) => None,
    }
}

/// The name of today's log file of trader `id`, or `None` when the system
/// clock lies outside the range of dates.
pub fn trader_log_name_today(id: usize) -> (r: Option<String>)
    ensures
        r matches Some(name) ==> exists|month: int, day: int, year: int|
            1 <= month <= 12 && 1 <= day <= 31 && -9999 <= year <= 9999 && name@
                == trader_log_name_text(id, month, day, year),
{
    match today() {
        Some((month, day, year)) => Some(trader_log_name(id, month, day, year)),
        None => None,
    }
}

/// Only the first token decides whether the list is uploaded: an empty list
/// is not, a list of one is unless its token is the placeholder `None`, a
/// longer list exactly when its first token alone would be, and any list that
/// starts with an address is.
pub proof fn upload_is_decided_by_the_first_token(tokens: Seq<Seq<char>>)
    ensures
        tokens.len() == 0 ==> !uploads_tokens_spec(tokens),
        tokens.len() == 1 ==> (uploads_tokens_spec(tokens) <==> tokens[0] != "None"@),
        tokens.len() > 0 ==> uploads_tokens_spec(tokens) == uploads_tokens_spec(seq![tokens[0]]),
        tokens.len() > 0 && address_check(tokens[0]) is Ok ==> uploads_tokens_spec(tokens),
{
    crate::address::placeholder_is_no_address();
}

/// The cloud flag alone decides where a worker runs: with it, on a cloud
/// instance whatever the worker count and the log flag; without it, locally.
pub proof fn cloud_flag_decides_where_workers_run(workers: usize, log: bool, other_workers: usize, other_log: bool)
    ensures
        launch_plan(true, workers, log) == LaunchPlan::Cloud,
        launch_plan(true, workers, log) == launch_plan(true, other_workers, other_log),
        launch_plan(false, workers, log) != LaunchPlan::Cloud,
{
}

/// The tokens joined by line feeds.
pub open spec fn joined_lines(tokens: Seq<Seq<char>>) -> Seq<char>
    decreases tokens.len(),
{
    if tokens.len() <= 1 {
        if tokens.len() == 1 {
            tokens[0]
        } else {
            Seq::empty()
        }
    } else {
        joined_lines(tokens.drop_last()) + seq!['\n'] + tokens.last()
    }
}

proof fn lemma_token_file_is_joined(tokens: Seq<Seq<char>>)
    requires
        tokens.len() > 0,
    ensures
        token_file_text(tokens) == joined_lines(tokens) + seq!['\n'],
    decreases tokens.len(),
{
    if tokens.len() > 1 {
        lemma_token_file_is_joined(tokens.drop_last());
        assert(token_file_text(tokens) =~= joined_lines(tokens) + seq!['\n']);
    }
}

proof fn lemma_split_single(t: Seq<char>)
    requires
        !t.contains('\n'),
    ensures
        split_at_newlines(t) == seq![t],
    decreases t.len(),
{
    if t.len() > 0 {
        assert(!t.drop_last().contains('\n')) by {
            if t.drop_last().contains('\n') {
                let k = choose|k: int| 0 <= k < t.drop_last().len() && t.drop_last()[k] == '\n';
                assert(t[k] == '\n');
            }
        }
        lemma_split_single(t.drop_last());
        assert(t.last() != '\n') by {
            assert(t[t.len() - 1] == t.last());
        }
        assert(t.drop_last().push(t.last()) =~= t);
        assert(seq![t.drop_last()].update(0, t.drop_last().push(t.last())) =~= seq![t]);
    } else {
        assert(t =~= Seq::<char>::empty());
    }
}

proof fn lemma_split_after_newline(a: Seq<char>, b: Seq<char>)
    requires
        !b.contains('\n'),
    ensures
        split_at_newlines(a + seq!['\n'] + b) == split_at_newlines(a).push(b),
    decreases b.len(),
{
    let x = a + seq!['\n'] + b;
    if b.len() == 0 {
        assert(x.drop_last() =~= a);
        assert(x.last() == '\n');
        assert(b =~= Seq::<char>::empty());
    } else {
        let b1 = b.drop_last();
        assert(!b1.contains('\n')) by {
            if b1.contains('\n') {
                let k = choose|k: int| 0 <= k < b1.len() && b1[k] == '\n';
                assert(b[k] == '\n');
            }
        }
        lemma_split_after_newline(a, b1);
        assert(x.drop_last() =~= a + seq!['\n'] + b1);
        assert(x.last() == b.last());
        assert(b.last() != '\n') by {
            assert(b[b.len() - 1] == b.last());
        }
        let prev = split_at_newlines(a).push(b1);
        assert(b1.push(b.last()) =~= b);
        assert(prev.last() == b1);
        assert(prev.update(prev.len() - 1, prev.last().push(x.last())) =~= split_at_newlines(
            a,
        ).push(b));
    }
}

proof fn lemma_split_joined(tokens: Seq<Seq<char>>)
    requires
        tokens.len() > 0,
        forall|i: int| 0 <= i < tokens.len() ==> !(#[trigger] tokens[i]).contains('\n'),
    ensures
        split_at_newlines(joined_lines(tokens)) == tokens,
    decreases tokens.len(),
{
    if tokens.len() == 1 {
        lemma_split_single(tokens[0]);
        assert(seq![tokens[0]] =~= tokens);
    } else {
        let init = tokens.drop_last();
        assert forall|i: int| 0 <= i < init.len() implies !(#[trigger] init[i]).contains('\n') by {
            assert(init[i] == tokens[i]);
        }
        lemma_split_joined(init);
        assert(!tokens.last().contains('\n')) by {
            assert(tokens[tokens.len() - 1] == tokens.last());
        }
        lemma_split_after_newline(joined_lines(init), tokens.last());
        assert(init.push(tokens.last()) =~= tokens);
    }
}

/// Base58 text holds neither white space, NUL nor line feeds.
proof fn lemma_base58_plain(t: Seq<char>)
    requires
        is_base58(t),
    ensures
        trimmed(t) == t,
        !t.contains('\n'),
{
    if t.len() > 0 {
        assert(base58_decoding(t) is Some);
        assert(!is_padding(t[0])) by {
            assert(crate::address::base58_digit(t[0]) is Some);
        }
        assert(!is_padding(t.last())) by {
            assert(crate::address::base58_digit(t[t.len() - 1]) is Some);
        }
    }
    if t.contains('\n') {
        let k = choose|k: int| 0 <= k < t.len() && t[k] == '\n';
        assert(crate::address::base58_digit(t[k]) is Some);
    }
}

proof fn lemma_accepts_all(lines: Seq<Seq<char>>)
    requires
        forall|i: int| 0 <= i < lines.len() ==> #[trigger] address_check(lines[i]) is Ok,
    ensures
        accepted_addresses(lines) == lines,
        rejected_messages(lines).len() == 0,
    decreases lines.len(),
{
    if lines.len() > 0 {
        let init = lines.drop_last();
        assert forall|i: int| 0 <= i < init.len() implies #[trigger] address_check(init[i]) is Ok by {
            assert(init[i] == lines[i]);
        }
        lemma_accepts_all(init);
        let last = lines.last();
        assert(address_check(lines[lines.len() - 1]) is Ok);
        assert(is_base58(last));
        lemma_base58_plain(last);
        assert(init.push(last) =~= lines);
    }
}

/// The token list file reads back line by line as the same tokens, in
/// order, for any non-empty list of tokens without line feeds.
pub proof fn token_file_lines_read_back(tokens: Seq<Seq<char>>)
    requires
        tokens.len() > 0,
        forall|i: int| 0 <= i < tokens.len() ==> !(#[trigger] tokens[i]).contains('\n'),
    ensures
        text_lines(token_file_text(tokens)) == tokens,
{
    lemma_token_file_is_joined(tokens);
    lemma_split_joined(tokens);
    let x = token_file_text(tokens);
    assert(x.drop_last() =~= joined_lines(tokens));
    assert(x.last() == '\n');
}

/// The token list that a cloud worker is given reads back as the same
/// addresses: when every token is an address, reading the uploaded file
/// line by line accepts exactly the tokens, in order, and warns of nothing.
pub proof fn uploaded_tokens_read_back(tokens: Seq<Seq<char>>)
    requires
        tokens.len() > 0,
        forall|i: int| 0 <= i < tokens.len() ==> #[trigger] address_check(tokens[i]) is Ok,
    ensures
        text_lines(token_file_text(tokens)) == tokens,
        accepted_addresses(text_lines(token_file_text(tokens))) == tokens,
        rejected_messages(text_lines(token_file_text(tokens))).len() == 0,
{
    assert forall|i: int| 0 <= i < tokens.len() implies !(#[trigger] tokens[i]).contains('\n') by {
        assert(address_check(tokens[i]) is Ok);
        lemma_base58_plain(tokens[i]);
    }
    token_file_lines_read_back(tokens);
    lemma_accepts_all(tokens);
}

} // verus!
