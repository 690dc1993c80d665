use arena::misc::stress_heap_memory;

#[test]
fn stress_heap_memory_runs() {
    stress_heap_memory(0);
    stress_heap_memory(1000);
}
