use stringutils::{count_vowels, str_length, str_reverse, to_uppercase};

fn generated_input(i: usize) -> String {
    let len = i % 64;
    (0..len)
        .map(|j| (b'a' + (((i + j) % 26) as u8)) as char)
        .collect()
}

fn edge_inputs() -> Vec<String> {
    vec![
        String::new(),
        "a".to_string(),
        "héllo 世界".to_string(),
        "z".repeat(4096),
    ]
}

#[test]
fn stress_no_panic_sustained_execution() {
    const ITERATIONS: usize = 10_000;

    for i in 0..ITERATIONS {
        let s = generated_input(i);
        let len = str_length(&s).expect("str_length must succeed on NUL-free input");
        let vowels = count_vowels(&s).expect("count_vowels must succeed on NUL-free input");
        std::hint::black_box((len, vowels));
        let reversed = str_reverse(&s).expect("str_reverse must succeed on NUL-free input");
        let upper = to_uppercase(&s).expect("to_uppercase must succeed on NUL-free input");
        std::hint::black_box((reversed, upper));
    }

    for _ in 0..1_000 {
        for s in edge_inputs() {
            let len = str_length(&s).expect("str_length must succeed on NUL-free input");
            let vowels = count_vowels(&s).expect("count_vowels must succeed on NUL-free input");
            std::hint::black_box((len, vowels));
            let reversed = str_reverse(&s).expect("str_reverse must succeed on NUL-free input");
            let upper = to_uppercase(&s).expect("to_uppercase must succeed on NUL-free input");
            std::hint::black_box((reversed, upper));
        }
    }
}

#[test]
fn leak_detection_many_allocations() {
    const ITERATIONS: usize = 5_000;

    for i in 0..ITERATIONS {
        let s = generated_input(i);
        let reversed = str_reverse(&s).expect("str_reverse must succeed on NUL-free input");
        let upper = to_uppercase(&s).expect("to_uppercase must succeed on NUL-free input");
        std::hint::black_box((reversed, upper));
    }

    for _ in 0..ITERATIONS {
        let reversed = str_reverse("héllo 世界").expect("str_reverse must succeed");
        let upper = to_uppercase("héllo 世界").expect("to_uppercase must succeed");
        std::hint::black_box((reversed, upper));
    }
}
