# sim_code

Limits of instruction-level parallelism: a simulator that reads an
instruction trace, derives each instruction's register and memory
dependencies, and counts the cycles an in-order fetch/decode/execute window
of a given width needs to run the trace, with and without register and
memory renaming.

Layout:

- `src/` is the verified library (Verus):
  - `text.rs`: whitespace and separator splitting, byte-offset slicing;
  - `models.rs`: the instruction records and their views;
  - `parse.rs`: the trace reader, one line at a time;
  - `translate.rs`: dependencies of each instruction shape;
  - `simulate.rs`: the dependency check, the execute stage, the cycle
    count, and the laws of the pipeline (window bound, progress,
    termination within 3 cycles per instruction, at most `width`
    instructions per 3 cycles, and that renaming only removes hazards from
    a single dependency check);
  - `schedule.rs`: the simulation instruction by instruction (which
    instructions have executed after each cycle), and the law that
    renaming or a wider window never makes a simulation take more cycles;
  - `experiment.rs`: the profile of a trace and the grid of simulations.
- `app/` is the program: it reads the trace files (in parallel), feeds
  their lines to the library and writes the results as CSV files.
- `tests/` exercises the library on concrete traces.
