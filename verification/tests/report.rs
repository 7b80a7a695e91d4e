use helios_benchmark::mode::{mode_from_name, BenchmarkMode};
use helios_benchmark::report::{append_csv, BenchmarkRecord, FractionTexts};
use helios_benchmark::spans::Average;

const HEADER: &str = "timestamp,spec,mode,committee_size,initial_slot,effective_signers_per_update,\
committee_transitions,runs,fixture_us,setup_us,prove_avg_us,verify_avg_us,prev_head,new_head,\
updates_processed,proof_bytes,total_instructions,gas,execute_us,compressed_proof_bytes,\
compressed_verify_us,plonk_span_avg_us,wrap_span_avg_us\n";

const ROW: &str = "1700000000123,mainnet,simplified,512,32,400,8,5,1001,2002,3003.50,4004.25,64,\
128,9,868,123456789,987654,5005,77777,6006.00,7007.10,8008.20\n";

fn record() -> BenchmarkRecord {
    BenchmarkRecord {
        mode: BenchmarkMode::Simplified,
        committee_size: 512,
        initial_slot: 32,
        signers_per_update: 400,
        committee_transitions: 8,
        runs: 5,
        fixture_us: 1001,
        setup_us: 2002,
        prove_avg: Average { total: 6007, count: 2 },
        verify_avg: Average { total: 16017, count: 4 },
        prev_head: 64,
        new_head: 128,
        updates_processed: 9,
        proof_bytes: 868,
        total_instructions: 123456789,
        gas: 987654,
        execute_us: 5005,
        compressed_proof_bytes: 77777,
        compressed_verify_us: 6006,
        plonk_span_avg: Average { total: 70071, count: 10 },
        wrap_span_avg: Average { total: 80082, count: 10 },
    }
}

fn fractions() -> FractionTexts {
    FractionTexts {
        prove_avg_us: "3003.50".to_string(),
        verify_avg_us: "4004.25".to_string(),
        compressed_verify_us: "6006.00".to_string(),
        plonk_span_avg_us: "7007.10".to_string(),
        wrap_span_avg_us: "8008.20".to_string(),
    }
}

#[test]
fn first_line_comes_with_a_header() {
    let text = append_csv(None, 1700000000123, "mainnet", &record(), &fractions());
    assert_eq!(text, format!("{HEADER}{ROW}"));
    let text = append_csv(Some(0), 1700000000123, "mainnet", &record(), &fractions());
    assert_eq!(text, format!("{HEADER}{ROW}"));
}

#[test]
fn later_lines_come_alone() {
    assert_eq!(append_csv(Some(1), 1700000000123, "mainnet", &record(), &fractions()), ROW);
    assert_eq!(append_csv(Some(u64::MAX), 1700000000123, "mainnet", &record(), &fractions()), ROW);
}

#[test]
fn growing_report_has_one_header() {
    let mut report = String::new();
    for _ in 0..3 {
        let text =
            append_csv(Some(report.len() as u64), 1700000000123, "mainnet", &record(), &fractions());
        report.push_str(&text);
    }
    assert_eq!(report, format!("{HEADER}{ROW}{ROW}{ROW}"));
}

#[test]
fn lines_have_one_field_per_column() {
    assert_eq!(HEADER.split(',').count(), 23);
    let line = append_csv(Some(1), u128::MAX, "mainnet", &record(), &fractions());
    assert_eq!(line.trim_end().split(',').count(), 23);
    assert_eq!(line.split(',').next(), Some("340282366920938463463374607431768211455"));
}

#[test]
fn special_characters_are_quoted() {
    let odd = FractionTexts {
        prove_avg_us: "1,5".to_string(),
        verify_avg_us: "say \"hi\"".to_string(),
        compressed_verify_us: "a\nb".to_string(),
        plonk_span_avg_us: "c\rd".to_string(),
        wrap_span_avg_us: String::new(),
    };
    let line = append_csv(Some(1), 0, "mainnet", &record(), &odd);
    assert_eq!(
        line,
        "0,mainnet,simplified,512,32,400,8,5,1001,2002,\"1,5\",\"say \"\"hi\"\"\",64,128,9,868,\
         123456789,987654,5005,77777,\"a\nb\",\"c\rd\",\n"
    );
}

#[test]
fn report_reads_back_as_csv() {
    let text = append_csv(None, 1700000000123, "mainnet", &record(), &fractions());
    let mut reader = csv::Reader::from_reader(text.as_bytes());
    let headers = reader.headers().unwrap().clone();
    let row = reader.records().next().unwrap().unwrap();
    let field = |name: &str| {
        let column = headers.iter().position(|header| header == name).unwrap();
        row.get(column).unwrap().to_string()
    };
    assert_eq!(field("effective_signers_per_update"), "400");
    assert_eq!(field("committee_transitions"), "8");
    assert_eq!(field("new_head"), "128");
    assert_eq!(field("gas"), "987654");
    assert_eq!(field("wrap_span_avg_us"), "8008.20");
}

#[test]
fn any_spec_name_and_fractions_read_back() {
    let odd = FractionTexts {
        prove_avg_us: "1,5".to_string(),
        verify_avg_us: "\"".to_string(),
        compressed_verify_us: "a\nb".to_string(),
        plonk_span_avg_us: String::new(),
        wrap_span_avg_us: "\"\",\"\"\r".to_string(),
    };
    let name = "a \"spec\",\nwith everything";
    let text = append_csv(Some(1), 17, name, &record(), &odd);
    let mut reader =
        csv::ReaderBuilder::new().has_headers(false).from_reader(text.as_bytes());
    let rows: Vec<csv::StringRecord> = reader.records().map(|row| row.unwrap()).collect();
    assert_eq!(rows.len(), 1);
    let row = &rows[0];
    assert_eq!(row.len(), 23);
    assert_eq!(row[0].parse::<u128>(), Ok(17));
    assert_eq!(&row[1], name);
    assert_eq!(mode_from_name(&row[2]), Some(BenchmarkMode::Simplified));
    assert_eq!(row[3].parse::<usize>(), Ok(512));
    assert_eq!(row[9].parse::<u128>(), Ok(2002));
    assert_eq!(&row[10], "1,5");
    assert_eq!(&row[11], "\"");
    assert_eq!(row[13].parse::<u64>(), Ok(128));
    assert_eq!(&row[20], "a\nb");
    assert_eq!(&row[21], "");
    assert_eq!(&row[22], "\"\",\"\"\r");
}

#[test]
fn whole_report_reads_back_as_header_and_lines() {
    let mut report = String::new();
    for (timestamp, name) in [(1, "minimal"), (2, "a,\n\"b\""), (3, "mainnet")] {
        let text =
            append_csv(Some(report.len() as u64), timestamp, name, &record(), &fractions());
        report.push_str(&text);
    }
    let mut reader = csv::ReaderBuilder::new().has_headers(false).from_reader(report.as_bytes());
    let lines: Vec<csv::StringRecord> = reader.records().map(|line| line.unwrap()).collect();
    assert_eq!(lines.len(), 4);
    assert_eq!((&lines[0][0], &lines[0][1]), ("timestamp", "spec"));
    assert_eq!((&lines[1][0], &lines[1][1]), ("1", "minimal"));
    assert_eq!((&lines[2][0], &lines[2][1]), ("2", "a,\n\"b\""));
    assert_eq!((&lines[3][0], &lines[3][1]), ("3", "mainnet"));
}
