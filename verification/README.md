# li_node_manager

The rules by which one machine takes part in a fleet of inference nodes: node identity and roles,
pairing, model lifecycles, the durable outbox and the private control surface.

The library in `src/` is written and proved in Verus. It decides and never touches the outside
world: what the database, the network or the clock said is handed in, as plain values or through a
port, and what is to be done next is handed out. Every function states what it returns for every
input; only of what a system clock says is nothing stated. What holds between functions stands as
public proof functions whose names begin with `law_`.

`app/` is ordinary Rust around it: JSON documents and database records, TLS and Unix sockets,
protected paths, principals and the composition over a database and its managers. `tests/` runs the
library on concrete values.

Few things are taken on trust: SHA-256, base64 and PEM parsing from their crates, and the readings
of the two clocks. Each stands behind one function whose comment says what is claimed of it.
