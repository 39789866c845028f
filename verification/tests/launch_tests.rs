use base64::Engine;
use solana_tools::address::read_address_list;
use solana_tools::launch::{
    bucket_name, copy_line, encode_user_data, instance_state_name, new_bucket_name, new_policy_requests,
    plan_launch, policy_document, policy_name, policy_requests, remove_line, startup_script,
    token_file_body, trader_arguments, trader_log_name, trader_log_name_today, uploads_tokens,
    worker_command, worker_instance_plan, worker_log_dir, LaunchPlan, TOKEN_FILE_KEY,
};

const TEMPLATE: &str = "{
                \"Version\": \"2012-10-17\",
                \"Statement\": [{
                    \"Effect\": \"Allow\",
                    \"Action\": \"{}:*\",
                    \"Resource\": \"*\"}]}";

fn is_uuid_v4(s: &str) -> bool {
    match uuid::Uuid::parse_str(s) {
        Ok(u) => u.get_version_num() == 4 && u.to_string() == s,
        Err(_) => false,
    }
}

#[test]
fn policy_document_fills_in_the_service() {
    for service in ["ssm", "s3", "ec2", "iam"] {
        assert_eq!(policy_document(service), TEMPLATE.replace("{}", service));
    }
}

#[test]
fn policy_name_joins_service_and_id() {
    assert_eq!(policy_name("ssm", "abc"), "ssm_policy_abc");
}

#[test]
fn policy_requests_cover_the_four_services_in_order() {
    let rs = policy_requests("id1");
    let labels: Vec<&str> = rs.iter().map(|r| r.label.as_str()).collect();
    assert_eq!(labels, vec!["SSM", "S3", "EC2", "IAM"]);
    let names: Vec<&str> = rs.iter().map(|r| r.name.as_str()).collect();
    assert_eq!(names, vec!["ssm_policy_id1", "s3_policy_id1", "ec2_policy_id1", "iam_policy_id1"]);
    assert_eq!(rs[2].document, TEMPLATE.replace("{}", "ec2"));
}

#[test]
fn new_policy_requests_use_a_fresh_uuid() {
    let (id, rs) = new_policy_requests().expect("random bytes");
    assert!(is_uuid_v4(&id), "{}", id);
    assert_eq!(rs[0].name, format!("ssm_policy_{}", id));
    let (other, _) = new_policy_requests().expect("random bytes");
    assert_ne!(id, other);
}

#[test]
fn bucket_names() {
    assert_eq!(bucket_name("x"), "snipertrader-tokens-x");
    let b = new_bucket_name().expect("random bytes");
    assert!(b.starts_with("snipertrader-tokens-"));
    assert!(is_uuid_v4(&b["snipertrader-tokens-".len()..]));
}

#[test]
fn worker_command_without_levels() {
    assert_eq!(
        worker_command("30m", "30", 1, None, None, false, false),
        "sniper-trader -e 30m -t 30 -w 1"
    );
}

#[test]
fn worker_command_with_everything() {
    assert_eq!(
        worker_command("2h", "12.5", 3, Some("0.1"), Some("0.2"), true, true),
        "sniper-trader -e 2h -t 12.5 -w 3 -s 0.1 -p 0.2 -l -f /root/copy.lst"
    );
}

#[test]
fn uploads_tokens_needs_a_real_first_token() {
    assert!(!uploads_tokens(&vec![]));
    assert!(!uploads_tokens(&vec!["None".to_string()]));
    assert!(uploads_tokens(&vec!["abc".to_string(), "None".to_string()]));
}

#[test]
fn token_file_body_ends_every_line() {
    assert_eq!(token_file_body(&vec![]), "\n");
    assert_eq!(token_file_body(&vec!["a".to_string()]), "a\n");
    assert_eq!(token_file_body(&vec!["a".to_string(), "b".to_string()]), "a\nb\n");
    let ts = vec!["x".to_string(), "y".to_string(), "z".to_string()];
    assert_eq!(token_file_body(&ts), ts.join("\n") + "\n");
}

#[test]
fn uploaded_token_list_reads_back() {
    let ts = vec![
        "TokenkegQfeZyiNwAJbNbGKPFXCWuBvf9Ss623VQ5DA".to_string(),
        "11111111111111111111111111111111".to_string(),
    ];
    let list = read_address_list(&token_file_body(&ts));
    assert_eq!(list.addresses, ts);
    assert!(list.warnings.is_empty());
}

#[test]
fn script_lines() {
    assert_eq!(TOKEN_FILE_KEY, "tokens.lst");
    assert_eq!(copy_line("b", TOKEN_FILE_KEY), "aws s3 cp s3://b/tokens.lst /root/copy.lst\n");
    assert_eq!(remove_line("b"), "aws s3 rb s3://b --force\n");
}

#[test]
fn startup_script_layout() {
    let expected = format!(
        "#!/bin/bash\n\
         export HOME=/root\n\
         sudo dnf install git gcc -y\n\
         {}\
         curl --proto '=https' --tlsv1.2 https://sh.rustup.rs -sSf | sh -s -- -y\n\
         . \"$HOME/.cargo/env\"\n\
         git clone https://github.com/K-spec-ops/solana-tools.git\n\
         cd solana-tools\n\
         cargo install --path .\n\
         {}\n\
         {}",
        "FETCH\n", "RUN", "CLEAN\n"
    );
    assert_eq!(startup_script("FETCH\n", "RUN", "CLEAN\n"), expected);
}

#[test]
fn encode_user_data_is_standard_base64() {
    assert_eq!(encode_user_data("hello"), "aGVsbG8=");
    assert_eq!(encode_user_data(""), "");
    assert_eq!(encode_user_data("hi!"), "aGkh");
    assert_eq!(encode_user_data("é").len(), 4);
}

#[test]
fn encode_user_data_agrees_with_the_base64_crate() {
    for text in ["a", "ab", "abc", "abcd", "#!/bin/bash\nexport HOME=/root\n", "ünïcødé ✓"] {
        assert_eq!(encode_user_data(text), base64::engine::general_purpose::STANDARD.encode(text));
    }
}

#[test]
fn token_file_lines_read_back() {
    let ts = vec!["one".to_string(), " two ".to_string(), "".to_string(), "x\r".to_string()];
    let body = token_file_body(&ts);
    let pieces: Vec<&str> = body[..body.len() - 1].split('\n').collect();
    assert_eq!(pieces, ts.iter().map(|t| t.as_str()).collect::<Vec<_>>());
}

#[test]
fn instance_states() {
    assert_eq!(instance_state_name(Some(0)), "pending");
    assert_eq!(instance_state_name(Some(16)), "running");
    assert_eq!(instance_state_name(Some(32)), "shutting down");
    assert_eq!(instance_state_name(Some(48)), "terminated");
    assert_eq!(instance_state_name(Some(64)), "None");
    assert_eq!(instance_state_name(None), "None");
}

#[test]
fn launch_plans() {
    assert_eq!(plan_launch(true, 4, false), LaunchPlan::Cloud);
    assert_eq!(plan_launch(false, 1, false), LaunchPlan::Local { log_to_file: false });
    assert_eq!(plan_launch(false, 2, false), LaunchPlan::Local { log_to_file: true });
    assert_eq!(plan_launch(false, 1, true), LaunchPlan::Local { log_to_file: true });
}

#[test]
fn trader_arguments_order() {
    let args = trader_arguments("30", Some("0.1"), Some("0.2"), 2, "/logs", &vec!["t1".to_string(), "t2".to_string()], "1800");
    assert_eq!(args, vec!["30", "0.1", "0.2", "2", "/logs", "t1", "t2", "1800"]);
}

#[test]
fn trader_arguments_for_a_run_by_time_alone() {
    let args = trader_arguments("30", None, None, 1, "", &vec![], "1800");
    assert_eq!(args, vec!["30", "", "", "1", "", "1800"]);
}

#[test]
fn trader_log_names() {
    assert_eq!(trader_log_name(3, 7, 4, 2025), "trader-w3-7-4-2025.log");
    assert_eq!(trader_log_name(12, 12, 31, -44), "trader-w12-12-31--44.log");
    let today = trader_log_name_today(5).expect("the clock is within range");
    assert!(today.starts_with("trader-w5-") && today.ends_with(".log"));
}

#[test]
fn worker_log_dirs() {
    assert_eq!(worker_log_dir(plan_launch(false, 3, false), "/proj"), "/proj");
    assert_eq!(worker_log_dir(plan_launch(false, 3, true), "/proj"), "/proj");
    assert_eq!(worker_log_dir(plan_launch(false, 1, true), "/proj"), "/proj");
    assert_eq!(worker_log_dir(plan_launch(false, 1, false), "/proj"), "");
    assert_eq!(worker_log_dir(plan_launch(true, 1, true), "/proj"), "");
}

#[test]
fn worker_instance() {
    let plan = worker_instance_plan();
    assert_eq!(plan.image_id, "ami-0eb45f74aa8a20238");
    assert_eq!(plan.instance_type, "r6g.large");
    assert_eq!(plan.zone, "us-east-1a");
    assert_eq!(plan.count, 1);
    assert!(plan.terminate_on_shutdown);
}

#[test]
fn many_fresh_uuids_have_the_v4_form() {
    for _ in 0..100 {
        let (id, _) = new_policy_requests().expect("random bytes");
        assert!(is_uuid_v4(&id), "{}", id);
    }
}
