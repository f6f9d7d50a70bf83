# mkswap

Sets up a Linux swap area on a block device or in a file.

`src/` is a library, verified with Verus. It checks the command line, settles
the page size, decides how a new file is prepared, counts the pages of the area,
lists the pages that cannot be read, lays out the first page and writes every
message. A run is a state machine (`session`): it asks for one system call at a
time and goes on with its outcome.

| module     | what it holds                                            |
|------------|----------------------------------------------------------|
| `session`  | a run, from the command line to the finished area        |
| `laws`     | what holds of every run                                  |
| `request`  | the command line and what may be wrong with it           |
| `pagesize` | which page size is used                                  |
| `device`   | how the device is opened, and how large it is            |
| `area`     | how many pages there are, what is written, the report    |
| `scan`     | the search for bad pages                                 |
| `header`   | the layout of the first page, and that it reads back     |
| `endian`   | byte orders                                              |
| `uuids`    | UUIDs, read, drawn and written by the `uuid` crate       |
| `error`    | errors and notes, with their words                       |
| `text`     | decimal numbers and operations on strings                |

`app/` is the program: the options, the system calls and the loop between them.
